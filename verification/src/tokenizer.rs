//! Turning raw source text into the keyword tokens of the language.
//!
//! The source is handled bytewise: comments run from a `;` to the end of
//! the line, and what is left splits on runs of whitespace into words.
//! Each word is one of the nine keywords, or an unknown token.

use vstd::prelude::*;

verus! {

/// One keyword of the language, named by its effect on the machine.
#[derive(Clone, Copy, Debug, PartialEq, Eq, Structural)]
pub enum Token {
    /// `i`: move the data pointer one cell right, saturating at the last cell.
    MoveRight,
    /// `use`: move the data pointer one cell left, saturating at cell 0.
    MoveLeft,
    /// `arch`: add one to the current cell, wrapping modulo 256.
    Increment,
    /// `linux`: subtract one from the current cell, wrapping modulo 256.
    Decrement,
    /// `btw`: write the current cell as one byte of output.
    Output,
    /// `by`: read one byte of input into the current cell.
    Input,
    /// `the`: loop-open; with the current cell zero, jump past the matching loop-close.
    LoopOpen,
    /// `way`: loop-close; with the current cell nonzero, jump back past the matching loop-open.
    LoopClose,
    /// `gentoo`: report the current instruction index, data pointer and cell value.
    Inspect,
    /// Any other word: reported as an unknown keyword, with no effect on the machine.
    Unknown,
}

/// The bytes that separate words: space, tab, line feed, carriage return,
/// vertical tab and form feed.
pub open spec fn is_space(b: u8) -> bool {
    b == 32 || b == 9 || b == 10 || b == 13 || b == 11 || b == 12
}

fn byte_is_space(b: u8) -> (r: bool)
    ensures
        r == is_space(b),
{
    b == 32 || b == 9 || b == 10 || b == 13 || b == 11 || b == 12
}

/// The source with every comment removed: from each `;` up to (but not
/// including) the end of its line, nothing is kept. `in_comment` says
/// whether the bytes at hand continue a comment begun on the same line.
pub open spec fn strip_from(s: Seq<u8>, in_comment: bool) -> Seq<u8>
    decreases s.len(),
{
    if s.len() == 0 {
        Seq::empty()
    } else {
        let c = s[0];
        if c == 10 {
            seq![c] + strip_from(s.skip(1), false)
        } else if in_comment {
            strip_from(s.skip(1), true)
        } else if c == 59 {
            strip_from(s.skip(1), true)
        } else {
            seq![c] + strip_from(s.skip(1), false)
        }
    }
}

/// The token that a single word denotes.
pub open spec fn spec_classify(w: Seq<u8>) -> Token {
    if w.len() == 1 && w[0] == 105 {
        Token::MoveRight
    } else if w.len() == 3 && w[0] == 117 && w[1] == 115 && w[2] == 101 {
        Token::MoveLeft
    } else if w.len() == 4 && w[0] == 97 && w[1] == 114 && w[2] == 99 && w[3] == 104 {
        Token::Increment
    } else if w.len() == 5 && w[0] == 108 && w[1] == 105 && w[2] == 110 && w[3] == 117 && w[4]
        == 120 {
        Token::Decrement
    } else if w.len() == 3 && w[0] == 98 && w[1] == 116 && w[2] == 119 {
        Token::Output
    } else if w.len() == 2 && w[0] == 98 && w[1] == 121 {
        Token::Input
    } else if w.len() == 3 && w[0] == 116 && w[1] == 104 && w[2] == 101 {
        Token::LoopOpen
    } else if w.len() == 3 && w[0] == 119 && w[1] == 97 && w[2] == 121 {
        Token::LoopClose
    } else if w.len() == 6 && w[0] == 103 && w[1] == 101 && w[2] == 110 && w[3] == 116 && w[4]
        == 111 && w[5] == 111 {
        Token::Inspect
    } else {
        Token::Unknown
    }
}

/// The tokens of a comment-free source, read left to right while `cur`
/// holds the word begun just before `s`: whitespace ends the word at
/// hand, every other byte extends it.
pub open spec fn tokens_from(s: Seq<u8>, cur: Seq<u8>) -> Seq<Token>
    decreases s.len(),
{
    if s.len() == 0 {
        if cur.len() == 0 {
            Seq::empty()
        } else {
            seq![spec_classify(cur)]
        }
    } else if is_space(s[0]) {
        if cur.len() == 0 {
            tokens_from(s.skip(1), Seq::empty())
        } else {
            seq![spec_classify(cur)] + tokens_from(s.skip(1), Seq::empty())
        }
    } else {
        tokens_from(s.skip(1), cur.push(s[0]))
    }
}

/// The token sequence of a raw source: strip comments, split the rest on
/// whitespace, and classify each word.
pub open spec fn spec_tokens(s: Seq<u8>) -> Seq<Token> {
    tokens_from(strip_from(s, false), Seq::empty())
}

/// The word at hand, as a token.
pub fn classify(w: &Vec<u8>) -> (t: Token)
    ensures
        t == spec_classify(w@),
{
    let n: usize = w.len();
    if n == 1 && w[0] == 105 {
        Token::MoveRight
    } else if n == 3 && w[0] == 117 && w[1] == 115 && w[2] == 101 {
        Token::MoveLeft
    } else if n == 4 && w[0] == 97 && w[1] == 114 && w[2] == 99 && w[3] == 104 {
        Token::Increment
    } else if n == 5 && w[0] == 108 && w[1] == 105 && w[2] == 110 && w[3] == 117 && w[4] == 120 {
        Token::Decrement
    } else if n == 3 && w[0] == 98 && w[1] == 116 && w[2] == 119 {
        Token::Output
    } else if n == 2 && w[0] == 98 && w[1] == 121 {
        Token::Input
    } else if n == 3 && w[0] == 116 && w[1] == 104 && w[2] == 101 {
        Token::LoopOpen
    } else if n == 3 && w[0] == 119 && w[1] == 97 && w[2] == 121 {
        Token::LoopClose
    } else if n == 6 && w[0] == 103 && w[1] == 101 && w[2] == 110 && w[3] == 116 && w[4] == 111
        && w[5] == 111 {
        Token::Inspect
    } else {
        Token::Unknown
    }
}

/// The source with comments removed, bytewise, as `strip_from` states.
pub fn strip_comments(src: &Vec<u8>) -> (out: Vec<u8>)
    ensures
        out@ == strip_from(src@, false),
{
    let mut out: Vec<u8> = Vec::new();
    let mut in_comment = false;
    let mut i: usize = 0;
    proof {
        assert(src@.skip(0) =~= src@);
        assert(Seq::<u8>::empty() + strip_from(src@, false) =~= strip_from(src@, false));
    }
    while i < src.len()
        invariant
            i <= src@.len(),
            strip_from(src@, false) == out@ + strip_from(src@.skip(i as int), in_comment),
        decreases src@.len() - i,
    {
        let ghost rem = src@.skip(i as int);
        let ghost rest = src@.skip(i as int + 1);
        let c: u8 = src[i];
        proof {
            assert(rem[0] == c);
            assert(rem.skip(1) =~= rest);
        }
        if c == 10 {
            proof {
                assert(strip_from(rem, in_comment) == seq![c] + strip_from(rest, false));
            }
            let ghost prev = out@;
            out.push(c);
            proof {
                assert(prev + (seq![c] + strip_from(rest, false)) =~= out@ + strip_from(
                    rest,
                    false,
                ));
            }
            in_comment = false;
        } else if in_comment {
            proof {
                assert(strip_from(rem, in_comment) == strip_from(rest, true));
            }
        } else if c == 59 {
            proof {
                assert(strip_from(rem, in_comment) == strip_from(rest, true));
            }
            in_comment = true;
        } else {
            proof {
                assert(strip_from(rem, in_comment) == seq![c] + strip_from(rest, false));
            }
            let ghost prev = out@;
            out.push(c);
            proof {
                assert(prev + (seq![c] + strip_from(rest, false)) =~= out@ + strip_from(
                    rest,
                    false,
                ));
            }
        }
        i += 1;
    }
    proof {
        assert(src@.skip(src@.len() as int) =~= Seq::<u8>::empty());
        assert(out@ + Seq::<u8>::empty() =~= out@);
    }
    out
}

/// The token sequence of a raw source, as `spec_tokens` states: comments
/// stripped per line, the rest split on whitespace, each word classified.
pub fn tokenize(src: &Vec<u8>) -> (toks: Vec<Token>)
    ensures
        toks@ == spec_tokens(src@),
{
    let stripped = strip_comments(src);
    let mut toks: Vec<Token> = Vec::new();
    let mut cur: Vec<u8> = Vec::new();
    let mut i: usize = 0;
    proof {
        assert(stripped@.skip(0) =~= stripped@);
        assert(Seq::<Token>::empty() + tokens_from(stripped@, Seq::empty()) =~= tokens_from(
            stripped@,
            Seq::empty(),
        ));
        assert(cur@ =~= Seq::<u8>::empty());
    }
    while i < stripped.len()
        invariant
            i <= stripped@.len(),
            tokens_from(stripped@, Seq::empty()) == toks@ + tokens_from(
                stripped@.skip(i as int),
                cur@,
            ),
        decreases stripped@.len() - i,
    {
        let ghost rem = stripped@.skip(i as int);
        let ghost rest = stripped@.skip(i as int + 1);
        let c: u8 = stripped[i];
        proof {
            assert(rem[0] == c);
            assert(rem.skip(1) =~= rest);
        }
        if byte_is_space(c) {
            if cur.len() > 0 {
                proof {
                    assert(tokens_from(rem, cur@) == seq![spec_classify(cur@)] + tokens_from(
                        rest,
                        Seq::empty(),
                    ));
                }
                let t = classify(&cur);
                let ghost prev = toks@;
                toks.push(t);
                cur = Vec::new();
                proof {
                    assert(cur@ =~= Seq::<u8>::empty());
                    assert(prev + (seq![t] + tokens_from(rest, Seq::empty())) =~= toks@
                        + tokens_from(rest, Seq::empty()));
                }
            } else {
                proof {
                    assert(cur@ =~= Seq::<u8>::empty());
                    assert(tokens_from(rem, cur@) == tokens_from(rest, Seq::empty()));
                }
            }
        } else {
            let ghost cur0 = cur@;
            cur.push(c);
            proof {
                assert(tokens_from(rem, cur0) == tokens_from(rest, cur0.push(c)));
            }
        }
        i += 1;
    }
    proof {
        assert(stripped@.skip(stripped@.len() as int) =~= Seq::<u8>::empty());
    }
    if cur.len() > 0 {
        let t = classify(&cur);
        let ghost prev = toks@;
        toks.push(t);
        proof {
            assert(tokens_from(Seq::<u8>::empty(), cur@) == seq![spec_classify(cur@)]);
            assert(prev + seq![t] =~= toks@);
        }
    } else {
        proof {
            assert(cur@ =~= Seq::<u8>::empty());
            assert(tokens_from(Seq::<u8>::empty(), Seq::<u8>::empty()) =~= Seq::<Token>::empty());
            assert(toks@ + Seq::<Token>::empty() =~= toks@);
        }
    }
    toks
}

} // verus!
