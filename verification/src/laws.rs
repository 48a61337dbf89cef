//! The properties the machine keeps over whole runs, stated over
//! `run_model` — the same function that `Interpreter::execute` is proved
//! to compute — and proved for every starting state, program and input.

use vstd::prelude::*;
use vstd::arithmetic::div_mod::{
    lemma_add_mod_noop_right,
    lemma_mod_add_multiples_vanish,
    lemma_mod_self_0,
    lemma_small_mod,
};
use crate::machine::{
    find_close,
    find_open,
    run_model,
    sat_left,
    sat_right,
    wrap_dec,
    wrap_inc,
    Status,
    TAPE_LEN,
};
use crate::tokenizer::Token;

verus! {

/// How many times a token occurs in a program from position `ip` on.
pub open spec fn count_token(toks: Seq<Token>, ip: int, t: Token) -> int
    decreases toks.len() - ip,
{
    if ip < 0 || ip >= toks.len() {
        0
    } else {
        (if toks[ip] == t {
            1int
        } else {
            0int
        }) + count_token(toks, ip + 1, t)
    }
}

/// A program made only of the two pointer-move tokens never takes the
/// data pointer outside [0, 65535], touches no cell, writes nothing, and
/// cannot fail. Every starting position on the tape and in the program
/// is covered, so the bound holds at every step of every such run.
pub proof fn lemma_pointer_stays_in_range(
    mem: Seq<u8>,
    dp: int,
    toks: Seq<Token>,
    ip: int,
    input: Seq<u8>,
    fuel: nat,
)
    requires
        0 <= dp < TAPE_LEN as int,
        forall|k: int|
            0 <= k < toks.len() ==> toks[k] == Token::MoveRight || toks[k] == Token::MoveLeft,
    ensures
        ({
            let m = run_model(mem, dp, toks, ip, input, fuel);
            &&& 0 <= m.1 < TAPE_LEN as int
            &&& m.0 == mem
            &&& m.2 == Seq::<u8>::empty()
            &&& m.4 == Status::Halted || m.4 == Status::OutOfFuel
        }),
    decreases fuel,
{
    if ip < 0 || ip >= toks.len() {
    } else if fuel == 0 {
    } else {
        assert(toks[ip] == Token::MoveRight || toks[ip] == Token::MoveLeft);
        if toks[ip] == Token::MoveRight {
            lemma_pointer_stays_in_range(mem, sat_right(dp), toks, ip + 1, input, (fuel - 1) as nat);
        } else {
            lemma_pointer_stays_in_range(mem, sat_left(dp), toks, ip + 1, input, (fuel - 1) as nat);
        }
    }
}

/// At the tape edges the pointer moves saturate: one more step right at
/// the last cell, or left at cell 0, leaves the pointer where it is.
pub proof fn lemma_pointer_saturates_at_edges()
    ensures
        sat_right(TAPE_LEN as int - 1) == TAPE_LEN as int - 1,
        sat_left(0) == 0,
{
}

/// A program made only of the two cell-arithmetic tokens leaves the
/// current cell at (its start value + increments − decrements) mod 256,
/// the pointer where it was, and every other cell untouched.
pub proof fn lemma_cell_arithmetic(
    mem: Seq<u8>,
    dp: int,
    toks: Seq<Token>,
    ip: int,
    input: Seq<u8>,
    fuel: nat,
)
    requires
        0 <= dp < mem.len(),
        forall|k: int|
            0 <= k < toks.len() ==> toks[k] == Token::Increment || toks[k] == Token::Decrement,
        0 <= ip,
        fuel >= toks.len() - ip,
    ensures
        ({
            let m = run_model(mem, dp, toks, ip, input, fuel);
            &&& m.4 == Status::Halted
            &&& m.1 == dp
            &&& m.0.len() == mem.len()
            &&& m.0[dp] as int == (mem[dp] + count_token(toks, ip, Token::Increment) - count_token(
                toks,
                ip,
                Token::Decrement,
            )) % 256
            &&& forall|k: int| 0 <= k < mem.len() && k != dp ==> m.0[k] == mem[k]
        }),
    decreases fuel,
{
    if ip >= toks.len() {
        assert(count_token(toks, ip, Token::Increment) == 0);
        assert(count_token(toks, ip, Token::Decrement) == 0);
        lemma_small_mod(mem[dp] as nat, 256);
    } else {
        assert(toks[ip] == Token::Increment || toks[ip] == Token::Decrement);
        let v = mem[dp];
        let ci = count_token(toks, ip + 1, Token::Increment);
        let cd = count_token(toks, ip + 1, Token::Decrement);
        if toks[ip] == Token::Increment {
            let mem1 = mem.update(dp, wrap_inc(v));
            lemma_cell_arithmetic(mem1, dp, toks, ip + 1, input, (fuel - 1) as nat);
            assert(count_token(toks, ip, Token::Increment) == 1 + ci);
            assert(count_token(toks, ip, Token::Decrement) == cd);
            assert(wrap_inc(v) as int == (v + 1) % 256) by {
                if v == 255 {
                    lemma_mod_self_0(256);
                } else {
                    lemma_small_mod((v + 1) as nat, 256);
                }
            }
            lemma_add_mod_noop_right(ci - cd, v + 1, 256);
            assert forall|k: int| 0 <= k < mem.len() && k != dp implies run_model(
                mem,
                dp,
                toks,
                ip,
                input,
                fuel,
            ).0[k] == mem[k] by {
                assert(mem1[k] == mem[k]);
            }
        } else {
            let mem1 = mem.update(dp, wrap_dec(v));
            lemma_cell_arithmetic(mem1, dp, toks, ip + 1, input, (fuel - 1) as nat);
            assert(count_token(toks, ip, Token::Increment) == ci);
            assert(count_token(toks, ip, Token::Decrement) == 1 + cd);
            assert(wrap_dec(v) as int == (v + 255) % 256) by {
                if v == 0 {
                    lemma_small_mod(255nat, 256);
                } else {
                    lemma_mod_add_multiples_vanish(v - 1, 256);
                    lemma_small_mod((v - 1) as nat, 256);
                }
            }
            lemma_add_mod_noop_right(ci - cd, v + 255, 256);
            lemma_mod_add_multiples_vanish(v + ci - cd - 1, 256);
            assert forall|k: int| 0 <= k < mem.len() && k != dp implies run_model(
                mem,
                dp,
                toks,
                ip,
                input,
                fuel,
            ).0[k] == mem[k] by {
                assert(mem1[k] == mem[k]);
            }
        }
    }
}

/// A read followed at once by a write echoes: the program `by btw` copies
/// the first byte of the input to the output unchanged, whatever the
/// tape, the pointer and the rest of the input hold.
pub proof fn lemma_echo_round_trip(mem: Seq<u8>, dp: int, input: Seq<u8>, fuel: nat)
    requires
        0 <= dp < mem.len(),
        input.len() >= 1,
        fuel >= 2,
    ensures
        ({
            let m = run_model(mem, dp, seq![Token::Input, Token::Output], 0, input, fuel);
            &&& m.2 == seq![input[0]]
            &&& m.4 == Status::Halted
        }),
{
    let toks = seq![Token::Input, Token::Output];
    assert(toks.len() == 2);
    assert(toks[0] == Token::Input);
    assert(toks[1] == Token::Output);
    let mem1 = mem.update(dp, input[0]);
    assert(mem1[dp] == input[0]);
    let m2 = run_model(mem1, dp, toks, 2, input.skip(1), (fuel - 2) as nat);
    assert(m2.2 == Seq::<u8>::empty());
    assert(m2.4 == Status::Halted);
    let m1 = run_model(mem1, dp, toks, 1, input.skip(1), (fuel - 1) as nat);
    assert(m1.2 == seq![mem1[dp]] + m2.2);
    assert(m1.4 == m2.4);
    let m = run_model(mem, dp, toks, 0, input, fuel);
    assert(m == m1);
    assert(seq![input[0]] + Seq::<u8>::empty() =~= seq![input[0]]);
}

/// The forward bracket scan, when it finds a match, lands inside the
/// program on a loop-close token.
pub proof fn lemma_find_close_is_close(toks: Seq<Token>, i: int, depth: int, j: int)
    requires
        find_close(toks, i, depth) == Some(j),
    ensures
        i <= j < toks.len(),
        toks[j] == Token::LoopClose,
    decreases toks.len() - i,
{
    if i < 0 || i >= toks.len() {
        assert(false);
    } else if toks[i] == Token::LoopOpen {
        lemma_find_close_is_close(toks, i + 1, depth + 1, j);
    } else if toks[i] == Token::LoopClose {
        if depth != 1 {
            lemma_find_close_is_close(toks, i + 1, depth - 1, j);
        }
    } else {
        lemma_find_close_is_close(toks, i + 1, depth, j);
    }
}

/// The backward bracket scan, when it finds a match, lands inside the
/// program on a loop-open token.
pub proof fn lemma_find_open_is_open(toks: Seq<Token>, i: int, depth: int, j: int)
    requires
        find_open(toks, i, depth) == Some(j),
    ensures
        0 <= j <= i,
        toks[j] == Token::LoopOpen,
    decreases i + 1,
{
    if i < 0 || i >= toks.len() {
        assert(false);
    } else if toks[i] == Token::LoopClose {
        lemma_find_open_is_open(toks, i - 1, depth + 1, j);
    } else if toks[i] == Token::LoopOpen {
        if depth != 1 {
            lemma_find_open_is_open(toks, i - 1, depth - 1, j);
        }
    } else {
        lemma_find_open_is_open(toks, i - 1, depth, j);
    }
}

/// Over a stretch of tokens with no loop keyword in it, the forward scan
/// pairs a loop-open with the first loop-close after that stretch.
pub proof fn lemma_flat_body_matches_forward(toks: Seq<Token>, i: int, j: int)
    requires
        0 <= i <= j < toks.len(),
        toks[j] == Token::LoopClose,
        forall|k: int|
            i <= k < j ==> toks[k] != Token::LoopOpen && toks[k] != Token::LoopClose,
    ensures
        find_close(toks, i, 1) == Some(j),
    decreases j - i,
{
    if i < j {
        lemma_flat_body_matches_forward(toks, i + 1, j);
    }
}

/// Over a stretch of tokens with no loop keyword in it, the backward scan
/// pairs a loop-close with the first loop-open before that stretch.
pub proof fn lemma_flat_body_matches_backward(toks: Seq<Token>, i: int, j: int)
    requires
        0 <= j <= i < toks.len(),
        toks[j] == Token::LoopOpen,
        forall|k: int|
            j < k <= i ==> toks[k] != Token::LoopOpen && toks[k] != Token::LoopClose,
    ensures
        find_open(toks, i, 1) == Some(j),
    decreases i - j,
{
    if j < i {
        lemma_flat_body_matches_backward(toks, i - 1, j);
    }
}

/// An unnested loop `the <body> way` whose current cell is zero at the
/// loop-open is skipped whole, exactly once: the run continues right
/// after the loop-close and no token of the body is executed.
pub proof fn lemma_flat_loop_skipped(
    mem: Seq<u8>,
    dp: int,
    toks: Seq<Token>,
    ip_open: int,
    ip_close: int,
    input: Seq<u8>,
    fuel: nat,
)
    requires
        0 <= ip_open < ip_close < toks.len(),
        toks[ip_open] == Token::LoopOpen,
        toks[ip_close] == Token::LoopClose,
        forall|k: int|
            ip_open < k < ip_close ==> toks[k] != Token::LoopOpen && toks[k] != Token::LoopClose,
        0 <= dp < mem.len(),
        mem[dp] == 0,
        fuel >= 1,
    ensures
        run_model(mem, dp, toks, ip_open, input, fuel) == run_model(
            mem,
            dp,
            toks,
            ip_close + 1,
            input,
            (fuel - 1) as nat,
        ),
{
    lemma_flat_body_matches_forward(toks, ip_open + 1, ip_close);
}

/// An unnested loop `the <body> way` whose current cell is nonzero at the
/// loop-close runs its body again: the run continues at the first body
/// token, so the body repeats until the cell is zero when the loop-close
/// is reached, and only then does the run leave the loop.
pub proof fn lemma_flat_loop_repeats(
    mem: Seq<u8>,
    dp: int,
    toks: Seq<Token>,
    ip_open: int,
    ip_close: int,
    input: Seq<u8>,
    fuel: nat,
)
    requires
        0 <= ip_open < ip_close < toks.len(),
        toks[ip_open] == Token::LoopOpen,
        toks[ip_close] == Token::LoopClose,
        forall|k: int|
            ip_open < k < ip_close ==> toks[k] != Token::LoopOpen && toks[k] != Token::LoopClose,
        0 <= dp < mem.len(),
        mem[dp] != 0,
        fuel >= 1,
    ensures
        run_model(mem, dp, toks, ip_close, input, fuel) == run_model(
            mem,
            dp,
            toks,
            ip_open + 1,
            input,
            (fuel - 1) as nat,
        ),
{
    lemma_flat_body_matches_backward(toks, ip_close - 1, ip_open);
}

/// One round of the countdown loop `the linux way`, entered at its body:
/// the cell goes down by one, and the body repeats until the cell is
/// zero at the loop-close, when the run leaves the loop and halts.
proof fn lemma_countdown_body(mem: Seq<u8>, dp: int, input: Seq<u8>, fuel: nat)
    requires
        0 <= dp < mem.len(),
        mem[dp] >= 1,
        fuel >= 2 * mem[dp],
    ensures
        ({
            let toks = seq![Token::LoopOpen, Token::Decrement, Token::LoopClose];
            let m = run_model(mem, dp, toks, 1, input, fuel);
            &&& m.4 == Status::Halted
            &&& m.1 == dp
            &&& m.0.len() == mem.len()
            &&& m.0[dp] == 0
            &&& forall|k: int| 0 <= k < mem.len() && k != dp ==> m.0[k] == mem[k]
            &&& m.2 == Seq::<u8>::empty()
        }),
    decreases mem[dp],
{
    let toks = seq![Token::LoopOpen, Token::Decrement, Token::LoopClose];
    assert(toks[0] == Token::LoopOpen);
    assert(toks[1] == Token::Decrement);
    assert(toks[2] == Token::LoopClose);
    let v = mem[dp];
    let mem1 = mem.update(dp, wrap_dec(v));
    assert(mem1[dp] == wrap_dec(v));
    assert(wrap_dec(v) as int == v - 1);
    let m1 = run_model(mem, dp, toks, 1, input, fuel);
    let m2 = run_model(mem1, dp, toks, 2, input, (fuel - 1) as nat);
    assert(m1 == m2);
    if v == 1 {
        assert(mem1[dp] == 0);
        assert(m2 == run_model(mem1, dp, toks, 3, input, (fuel - 2) as nat));
    } else {
        assert(find_open(toks, 0, 1) == Some(0int));
        assert(find_open(toks, 1, 1) == Some(0int));
        assert(m2 == run_model(mem1, dp, toks, 1, input, (fuel - 2) as nat));
        lemma_countdown_body(mem1, dp, input, (fuel - 2) as nat);
        assert forall|k: int| 0 <= k < mem.len() && k != dp implies m1.0[k] == mem[k] by {
            assert(mem1[k] == mem[k]);
        }
    }
}

/// The countdown loop: the program `the linux way` always halts, with
/// the current cell drained to zero, every other cell untouched, the
/// pointer where it was and nothing written — whatever value the cell
/// held when the loop was reached.
pub proof fn lemma_countdown_loop_drains(mem: Seq<u8>, dp: int, input: Seq<u8>, fuel: nat)
    requires
        0 <= dp < mem.len(),
        fuel >= 1 + 2 * mem[dp],
    ensures
        ({
            let m = run_model(
                mem,
                dp,
                seq![Token::LoopOpen, Token::Decrement, Token::LoopClose],
                0,
                input,
                fuel,
            );
            &&& m.4 == Status::Halted
            &&& m.1 == dp
            &&& m.0.len() == mem.len()
            &&& m.0[dp] == 0
            &&& forall|k: int| 0 <= k < mem.len() && k != dp ==> m.0[k] == mem[k]
            &&& m.2 == Seq::<u8>::empty()
        }),
{
    let toks = seq![Token::LoopOpen, Token::Decrement, Token::LoopClose];
    assert(toks[0] == Token::LoopOpen);
    assert(toks[1] == Token::Decrement);
    assert(toks[2] == Token::LoopClose);
    let m = run_model(mem, dp, toks, 0, input, fuel);
    if mem[dp] == 0 {
        assert(find_close(toks, 2, 1) == Some(2int));
        assert(find_close(toks, 1, 1) == Some(2int));
        assert(m == run_model(mem, dp, toks, 3, input, (fuel - 1) as nat));
    } else {
        assert(m == run_model(mem, dp, toks, 1, input, (fuel - 1) as nat));
        lemma_countdown_body(mem, dp, input, (fuel - 1) as nat);
    }
}

/// Loop-open with the current cell zero skips the whole body exactly
/// once: the run continues right after the matching loop-close, with the
/// tape, the pointer and the input exactly as they were.
pub proof fn lemma_loop_open_skips(
    mem: Seq<u8>,
    dp: int,
    toks: Seq<Token>,
    ip: int,
    input: Seq<u8>,
    fuel: nat,
    j: int,
)
    requires
        0 <= ip < toks.len(),
        toks[ip] == Token::LoopOpen,
        0 <= dp < mem.len(),
        mem[dp] == 0,
        fuel >= 1,
        find_close(toks, ip + 1, 1) == Some(j),
    ensures
        run_model(mem, dp, toks, ip, input, fuel) == run_model(
            mem,
            dp,
            toks,
            j + 1,
            input,
            (fuel - 1) as nat,
        ),
{
}

/// Loop-open with the current cell nonzero falls through into the body.
pub proof fn lemma_loop_open_enters(
    mem: Seq<u8>,
    dp: int,
    toks: Seq<Token>,
    ip: int,
    input: Seq<u8>,
    fuel: nat,
)
    requires
        0 <= ip < toks.len(),
        toks[ip] == Token::LoopOpen,
        0 <= dp < mem.len(),
        mem[dp] != 0,
        fuel >= 1,
    ensures
        run_model(mem, dp, toks, ip, input, fuel) == run_model(
            mem,
            dp,
            toks,
            ip + 1,
            input,
            (fuel - 1) as nat,
        ),
{
}

/// Loop-close with the current cell nonzero runs the body again: the run
/// continues right after the matching loop-open, so the loop repeats
/// until the cell is zero when the loop-close is reached.
pub proof fn lemma_loop_close_repeats(
    mem: Seq<u8>,
    dp: int,
    toks: Seq<Token>,
    ip: int,
    input: Seq<u8>,
    fuel: nat,
    j: int,
)
    requires
        0 <= ip < toks.len(),
        toks[ip] == Token::LoopClose,
        0 <= dp < mem.len(),
        mem[dp] != 0,
        fuel >= 1,
        find_open(toks, ip - 1, 1) == Some(j),
    ensures
        run_model(mem, dp, toks, ip, input, fuel) == run_model(
            mem,
            dp,
            toks,
            j + 1,
            input,
            (fuel - 1) as nat,
        ),
{
}

/// Loop-close with the current cell zero lets the run leave the loop.
pub proof fn lemma_loop_close_exits(
    mem: Seq<u8>,
    dp: int,
    toks: Seq<Token>,
    ip: int,
    input: Seq<u8>,
    fuel: nat,
)
    requires
        0 <= ip < toks.len(),
        toks[ip] == Token::LoopClose,
        0 <= dp < mem.len(),
        mem[dp] == 0,
        fuel >= 1,
    ensures
        run_model(mem, dp, toks, ip, input, fuel) == run_model(
            mem,
            dp,
            toks,
            ip + 1,
            input,
            (fuel - 1) as nat,
        ),
{
}

} // verus!
