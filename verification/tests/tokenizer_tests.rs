use i_use_arch_btw::tokenizer::{tokenize, Token};

#[test]
fn comment_after_token_keeps_the_token() {
    let toks = tokenize(&b"arch ; this increments".to_vec());
    assert_eq!(toks, vec![Token::Increment]);
}

#[test]
fn comment_line_yields_no_tokens() {
    let toks = tokenize(&b"; a comment line".to_vec());
    assert_eq!(toks, vec![]);
}

#[test]
fn comment_line_with_leading_whitespace_yields_no_tokens() {
    let toks = tokenize(&b"   ; still a comment".to_vec());
    assert_eq!(toks, vec![]);
}

#[test]
fn all_keywords_classify() {
    let toks = tokenize(&b"i use arch linux btw by the way gentoo".to_vec());
    assert_eq!(
        toks,
        vec![
            Token::MoveRight,
            Token::MoveLeft,
            Token::Increment,
            Token::Decrement,
            Token::Output,
            Token::Input,
            Token::LoopOpen,
            Token::LoopClose,
            Token::Inspect,
        ]
    );
}

#[test]
fn unknown_word_is_an_unknown_token() {
    let toks = tokenize(&b"foo".to_vec());
    assert_eq!(toks, vec![Token::Unknown]);
}

#[test]
fn comment_ends_at_the_line_end() {
    let toks = tokenize(&b"arch ; note\nlinux".to_vec());
    assert_eq!(toks, vec![Token::Increment, Token::Decrement]);
}

#[test]
fn tokens_split_on_lines_comments_and_whitespace() {
    let toks = tokenize(&b"arch ; increment\n; a whole comment line\n  use\tlinux\n".to_vec());
    assert_eq!(toks, vec![Token::Increment, Token::MoveLeft, Token::Decrement]);
}

#[test]
fn no_token_spans_a_line_break() {
    let toks = tokenize(&b"ar\nch".to_vec());
    assert_eq!(toks, vec![Token::Unknown, Token::Unknown]);
}

#[test]
fn empty_source_yields_no_tokens() {
    let toks = tokenize(&b"".to_vec());
    assert_eq!(toks, vec![]);
}

#[test]
fn whitespace_only_source_yields_no_tokens() {
    let toks = tokenize(&b"  \t \r\n \n".to_vec());
    assert_eq!(toks, vec![]);
}
