//! The tape machine: a fixed tape of byte cells, a data pointer, a token
//! sequence and an instruction pointer, executed token by token.
//!
//! `step` makes one transition and hands any outside effect (a byte to
//! write, a byte wanted, a diagnostic) back to the caller; `execute` runs
//! the whole program over a given input, collecting the output.

use vstd::prelude::*;
use vstd::pervasive::VecAdditionalExecFns;
use crate::tokenizer::Token;

verus! {

/// The number of cells on the tape.
pub const TAPE_LEN: usize = 65536;

/// How a run ended.
#[derive(Clone, Copy, Debug, PartialEq, Eq, Structural)]
pub enum Status {
    /// The instruction pointer reached the end of the token sequence.
    Halted,
    /// The step bound ran out before the program did.
    OutOfFuel,
    /// A loop bracket scan ran past the end of the token sequence: the
    /// program's loop keywords are unbalanced. Fatal.
    UnbalancedLoop,
    /// A read was asked for with no input left. Fatal.
    InputExhausted,
}

/// What one transition asks of the caller.
///
/// The inspect report carries logical positions — the instruction index
/// and the data pointer value — in place of machine addresses, which a
/// program without raw pointers does not have.
#[derive(Clone, Copy, Debug, PartialEq, Eq, Structural)]
pub enum StepEffect {
    /// The state moved on; nothing for the caller to do.
    Advanced,
    /// Write this byte to the output, flushing at once.
    Emit(u8),
    /// The current token wants one byte of input: the state did not move;
    /// read a byte and hand it to `provide_input`.
    AwaitInput,
    /// Report an unknown keyword on the error stream; the state moved on
    /// otherwise unchanged.
    UnknownKeyword,
    /// Report the instruction index, the data pointer and the current
    /// cell value on the error stream.
    Trace(usize, usize, u8),
    /// A loop bracket had no match; the run is over. Fatal.
    UnbalancedLoop,
    /// The program is over; the state did not move.
    Halted,
}

/// What `execute` hands back: the bytes written, how many unknown
/// keywords were reported, and how the run ended.
pub struct RunOutcome {
    pub output: Vec<u8>,
    pub unknown_count: u64,
    pub status: Status,
}

/// One move of the data pointer to the right, saturating at the last cell.
pub open spec fn sat_right(dp: int) -> int {
    if dp + 1 < TAPE_LEN as int {
        dp + 1
    } else {
        dp
    }
}

/// One move of the data pointer to the left, saturating at cell 0.
pub open spec fn sat_left(dp: int) -> int {
    if dp > 0 {
        dp - 1
    } else {
        dp
    }
}

/// One increment of a cell, wrapping modulo 256.
pub open spec fn wrap_inc(v: u8) -> u8 {
    if v == 255 {
        0
    } else {
        (v + 1) as u8
    }
}

/// One decrement of a cell, wrapping modulo 256.
pub open spec fn wrap_dec(v: u8) -> u8 {
    if v == 0 {
        255
    } else {
        (v - 1) as u8
    }
}

/// The index of the loop-close that matches a loop-open, scanning right
/// from `i` with `depth` opens outstanding; `None` when the scan runs
/// past the end.
pub open spec fn find_close(toks: Seq<Token>, i: int, depth: int) -> Option<int>
    decreases toks.len() - i,
{
    if i < 0 || i >= toks.len() {
        None
    } else if toks[i] == Token::LoopOpen {
        find_close(toks, i + 1, depth + 1)
    } else if toks[i] == Token::LoopClose {
        if depth == 1 {
            Some(i)
        } else {
            find_close(toks, i + 1, depth - 1)
        }
    } else {
        find_close(toks, i + 1, depth)
    }
}

/// The index of the loop-open that matches a loop-close, scanning left
/// from `i` with `depth` closes outstanding; `None` when the scan runs
/// past the start.
pub open spec fn find_open(toks: Seq<Token>, i: int, depth: int) -> Option<int>
    decreases i + 1,
{
    if i < 0 || i >= toks.len() {
        None
    } else if toks[i] == Token::LoopClose {
        find_open(toks, i - 1, depth + 1)
    } else if toks[i] == Token::LoopOpen {
        if depth == 1 {
            Some(i)
        } else {
            find_open(toks, i - 1, depth - 1)
        }
    } else {
        find_open(toks, i - 1, depth)
    }
}

/// A whole run, as a mathematical function of the starting state, the
/// input stream and a step bound: the final tape, the final data pointer,
/// the bytes written, the number of unknown keywords reported, and how
/// the run ended.
pub open spec fn run_model(
    mem: Seq<u8>,
    dp: int,
    toks: Seq<Token>,
    ip: int,
    input: Seq<u8>,
    fuel: nat,
) -> (Seq<u8>, int, Seq<u8>, int, Status)
    decreases fuel,
{
    if ip < 0 || ip >= toks.len() {
        (mem, dp, Seq::empty(), 0, Status::Halted)
    } else if fuel == 0 {
        (mem, dp, Seq::empty(), 0, Status::OutOfFuel)
    } else {
        match toks[ip] {
            Token::MoveRight => run_model(mem, sat_right(dp), toks, ip + 1, input, (fuel - 1) as nat),
            Token::MoveLeft => run_model(mem, sat_left(dp), toks, ip + 1, input, (fuel - 1) as nat),
            Token::Increment => run_model(
                mem.update(dp, wrap_inc(mem[dp])),
                dp,
                toks,
                ip + 1,
                input,
                (fuel - 1) as nat,
            ),
            Token::Decrement => run_model(
                mem.update(dp, wrap_dec(mem[dp])),
                dp,
                toks,
                ip + 1,
                input,
                (fuel - 1) as nat,
            ),
            Token::Output => {
                let r = run_model(mem, dp, toks, ip + 1, input, (fuel - 1) as nat);
                (r.0, r.1, seq![mem[dp]] + r.2, r.3, r.4)
            },
            Token::Input => {
                if input.len() == 0 {
                    (mem, dp, Seq::empty(), 0, Status::InputExhausted)
                } else {
                    run_model(mem.update(dp, input[0]), dp, toks, ip + 1, input.skip(1), (fuel - 1) as nat)
                }
            },
            Token::LoopOpen => {
                if mem[dp] == 0 {
                    match find_close(toks, ip + 1, 1) {
                        Some(j) => run_model(mem, dp, toks, j + 1, input, (fuel - 1) as nat),
                        None => (mem, dp, Seq::empty(), 0, Status::UnbalancedLoop),
                    }
                } else {
                    run_model(mem, dp, toks, ip + 1, input, (fuel - 1) as nat)
                }
            },
            Token::LoopClose => {
                if mem[dp] != 0 {
                    match find_open(toks, ip - 1, 1) {
                        Some(j) => run_model(mem, dp, toks, j + 1, input, (fuel - 1) as nat),
                        None => (mem, dp, Seq::empty(), 0, Status::UnbalancedLoop),
                    }
                } else {
                    run_model(mem, dp, toks, ip + 1, input, (fuel - 1) as nat)
                }
            },
            Token::Inspect => run_model(mem, dp, toks, ip + 1, input, (fuel - 1) as nat),
            Token::Unknown => {
                let r = run_model(mem, dp, toks, ip + 1, input, (fuel - 1) as nat);
                (r.0, r.1, r.2, r.3 + 1, r.4)
            },
        }
    }
}

/// The machine: the tape, the data pointer into it, the token sequence
/// and the instruction pointer into that.
pub struct Interpreter {
    pub memory: Vec<u8>,
    pub data_pointer: usize,
    pub tokens: Vec<Token>,
    pub instruction_pointer: usize,
}

/// What one call of `step` does: the relation between the state before,
/// the state after, and the effect handed back, case by case over the
/// current token.
pub open spec fn step_relation(pre: Interpreter, post: Interpreter, eff: StepEffect) -> bool {
    let toks = pre.tokens@;
    let ip = pre.instruction_pointer as int;
    let dp = pre.data_pointer as int;
    let mem = pre.memory@;
    &&& post.tokens@ == toks
    &&& if ip >= toks.len() {
        &&& post.memory@ == mem
        &&& post.data_pointer == pre.data_pointer
        &&& post.instruction_pointer == pre.instruction_pointer
        &&& eff == StepEffect::Halted
    } else {
        match toks[ip] {
            Token::MoveRight => {
                &&& post.memory@ == mem
                &&& post.data_pointer as int == sat_right(dp)
                &&& post.instruction_pointer as int == ip + 1
                &&& eff == StepEffect::Advanced
            },
            Token::MoveLeft => {
                &&& post.memory@ == mem
                &&& post.data_pointer as int == sat_left(dp)
                &&& post.instruction_pointer as int == ip + 1
                &&& eff == StepEffect::Advanced
            },
            Token::Increment => {
                &&& post.memory@ == mem.update(dp, wrap_inc(mem[dp]))
                &&& post.data_pointer == pre.data_pointer
                &&& post.instruction_pointer as int == ip + 1
                &&& eff == StepEffect::Advanced
            },
            Token::Decrement => {
                &&& post.memory@ == mem.update(dp, wrap_dec(mem[dp]))
                &&& post.data_pointer == pre.data_pointer
                &&& post.instruction_pointer as int == ip + 1
                &&& eff == StepEffect::Advanced
            },
            Token::Output => {
                &&& post.memory@ == mem
                &&& post.data_pointer == pre.data_pointer
                &&& post.instruction_pointer as int == ip + 1
                &&& eff == StepEffect::Emit(mem[dp])
            },
            Token::Input => {
                &&& post.memory@ == mem
                &&& post.data_pointer == pre.data_pointer
                &&& post.instruction_pointer == pre.instruction_pointer
                &&& eff == StepEffect::AwaitInput
            },
            Token::LoopOpen => {
                &&& post.memory@ == mem
                &&& post.data_pointer == pre.data_pointer
                &&& if mem[dp] == 0 {
                    match find_close(toks, ip + 1, 1) {
                        Some(j) => {
                            &&& post.instruction_pointer as int == j + 1
                            &&& eff == StepEffect::Advanced
                        },
                        None => {
                            &&& post.instruction_pointer == pre.instruction_pointer
                            &&& eff == StepEffect::UnbalancedLoop
                        },
                    }
                } else {
                    &&& post.instruction_pointer as int == ip + 1
                    &&& eff == StepEffect::Advanced
                }
            },
            Token::LoopClose => {
                &&& post.memory@ == mem
                &&& post.data_pointer == pre.data_pointer
                &&& if mem[dp] != 0 {
                    match find_open(toks, ip - 1, 1) {
                        Some(j) => {
                            &&& post.instruction_pointer as int == j + 1
                            &&& eff == StepEffect::Advanced
                        },
                        None => {
                            &&& post.instruction_pointer == pre.instruction_pointer
                            &&& eff == StepEffect::UnbalancedLoop
                        },
                    }
                } else {
                    &&& post.instruction_pointer as int == ip + 1
                    &&& eff == StepEffect::Advanced
                }
            },
            Token::Inspect => {
                &&& post.memory@ == mem
                &&& post.data_pointer == pre.data_pointer
                &&& post.instruction_pointer as int == ip + 1
                &&& eff == StepEffect::Trace(pre.instruction_pointer, pre.data_pointer, mem[dp])
            },
            Token::Unknown => {
                &&& post.memory@ == mem
                &&& post.data_pointer == pre.data_pointer
                &&& post.instruction_pointer as int == ip + 1
                &&& eff == StepEffect::UnknownKeyword
            },
        }
    }
}

impl Interpreter {
    /// A machine in its starting state: every cell zero, both pointers
    /// at 0, with the given program.
    pub open spec fn wf(self) -> bool {
        &&& self.memory@.len() == TAPE_LEN
        &&& self.data_pointer < TAPE_LEN
        &&& self.instruction_pointer <= self.tokens@.len()
    }

    pub fn new(tokens: Vec<Token>) -> (r: Interpreter)
        ensures
            r.wf(),
            r.tokens@ == tokens@,
            r.memory@.len() == TAPE_LEN,
            forall|k: int| 0 <= k < TAPE_LEN ==> r.memory@[k] == 0,
            r.data_pointer == 0,
            r.instruction_pointer == 0,
    {
        let mut memory: Vec<u8> = Vec::new();
        while memory.len() < TAPE_LEN
            invariant
                memory@.len() <= TAPE_LEN,
                forall|k: int| 0 <= k < memory@.len() ==> memory@[k] == 0,
            decreases TAPE_LEN - memory@.len(),
        {
            memory.push(0);
        }
        Interpreter { memory, data_pointer: 0, tokens, instruction_pointer: 0 }
    }

    /// Move the data pointer one cell right, saturating at the last cell.
    pub fn increment_data_pointer(&mut self)
        requires
            old(self).wf(),
        ensures
            final(self).wf(),
            final(self).data_pointer as int == sat_right(old(self).data_pointer as int),
            final(self).memory@ == old(self).memory@,
            final(self).tokens@ == old(self).tokens@,
            final(self).instruction_pointer == old(self).instruction_pointer,
    {
        if self.data_pointer < TAPE_LEN - 1 {
            self.data_pointer = self.data_pointer + 1;
        }
    }

    /// Move the data pointer one cell left, saturating at cell 0.
    pub fn decrement_data_pointer(&mut self)
        requires
            old(self).wf(),
        ensures
            final(self).wf(),
            final(self).data_pointer as int == sat_left(old(self).data_pointer as int),
            final(self).memory@ == old(self).memory@,
            final(self).tokens@ == old(self).tokens@,
            final(self).instruction_pointer == old(self).instruction_pointer,
    {
        if self.data_pointer > 0 {
            self.data_pointer = self.data_pointer - 1;
        }
    }

    /// Add one to the current cell, wrapping modulo 256.
    pub fn increment_value(&mut self)
        requires
            old(self).wf(),
        ensures
            final(self).wf(),
            final(self).memory@ == old(self).memory@.update(
                old(self).data_pointer as int,
                wrap_inc(old(self).memory@[old(self).data_pointer as int]),
            ),
            final(self).data_pointer == old(self).data_pointer,
            final(self).tokens@ == old(self).tokens@,
            final(self).instruction_pointer == old(self).instruction_pointer,
    {
        let dp: usize = self.data_pointer;
        let v: u8 = self.memory[dp];
        let nv: u8 = if v == 255 {
            0
        } else {
            v + 1
        };
        self.memory.set(dp, nv);
    }

    /// Subtract one from the current cell, wrapping modulo 256.
    pub fn decrement_value(&mut self)
        requires
            old(self).wf(),
        ensures
            final(self).wf(),
            final(self).memory@ == old(self).memory@.update(
                old(self).data_pointer as int,
                wrap_dec(old(self).memory@[old(self).data_pointer as int]),
            ),
            final(self).data_pointer == old(self).data_pointer,
            final(self).tokens@ == old(self).tokens@,
            final(self).instruction_pointer == old(self).instruction_pointer,
    {
        let dp: usize = self.data_pointer;
        let v: u8 = self.memory[dp];
        let nv: u8 = if v == 0 {
            255
        } else {
            v - 1
        };
        self.memory.set(dp, nv);
    }

    /// Scan right for the loop-close that matches a loop-open, starting
    /// at `start` with one open outstanding.
    fn scan_forward(&self, start: usize) -> (r: Option<usize>)
        requires
            start <= self.tokens@.len(),
        ensures
            match r {
                Some(j) => find_close(self.tokens@, start as int, 1) == Some(j as int) && j
                    < self.tokens@.len(),
                None => find_close(self.tokens@, start as int, 1) is None,
            },
    {
        let ghost toks = self.tokens@;
        let mut i: usize = start;
        let mut depth: u128 = 1;
        while i < self.tokens.len()
            invariant
                toks == self.tokens@,
                start <= i <= toks.len(),
                1 <= depth <= i - start + 1,
                find_close(toks, start as int, 1) == find_close(toks, i as int, depth as int),
            decreases toks.len() - i,
        {
            match self.tokens[i] {
                Token::LoopOpen => {
                    depth = depth + 1;
                },
                Token::LoopClose => {
                    if depth == 1 {
                        return Some(i);
                    }
                    depth = depth - 1;
                },
                _ => {},
            }
            i = i + 1;
        }
        None
    }

    /// Scan left for the loop-open that matches a loop-close standing at
    /// `start`, beginning one token before it with one close outstanding.
    fn scan_backward(&self, start: usize) -> (r: Option<usize>)
        requires
            start < self.tokens@.len(),
        ensures
            match r {
                Some(j) => find_open(self.tokens@, start as int - 1, 1) == Some(j as int) && j
                    < self.tokens@.len(),
                None => find_open(self.tokens@, start as int - 1, 1) is None,
            },
    {
        let ghost toks = self.tokens@;
        let mut i: usize = start;
        let mut depth: u128 = 1;
        while i > 0
            invariant
                toks == self.tokens@,
                i <= start < toks.len(),
                1 <= depth <= start - i + 1,
                find_open(toks, start as int - 1, 1) == find_open(toks, i as int - 1, depth as int),
            decreases i,
        {
            let j: usize = i - 1;
            match self.tokens[j] {
                Token::LoopClose => {
                    depth = depth + 1;
                },
                Token::LoopOpen => {
                    if depth == 1 {
                        return Some(j);
                    }
                    depth = depth - 1;
                },
                _ => {},
            }
            i = j;
        }
        None
    }

    /// One transition of the machine: dispatch on the current token, move
    /// the state as `step_relation` states, and hand back what the caller
    /// must do about the outside world.
    pub fn step(&mut self) -> (eff: StepEffect)
        requires
            old(self).wf(),
        ensures
            final(self).wf(),
            step_relation(*old(self), *final(self), eff),
    {
        if self.instruction_pointer >= self.tokens.len() {
            return StepEffect::Halted;
        }
        let ip: usize = self.instruction_pointer;
        match self.tokens[ip] {
            Token::MoveRight => {
                self.increment_data_pointer();
                self.instruction_pointer = ip + 1;
                StepEffect::Advanced
            },
            Token::MoveLeft => {
                self.decrement_data_pointer();
                self.instruction_pointer = ip + 1;
                StepEffect::Advanced
            },
            Token::Increment => {
                self.increment_value();
                self.instruction_pointer = ip + 1;
                StepEffect::Advanced
            },
            Token::Decrement => {
                self.decrement_value();
                self.instruction_pointer = ip + 1;
                StepEffect::Advanced
            },
            Token::Output => {
                let b: u8 = self.memory[self.data_pointer];
                self.instruction_pointer = ip + 1;
                StepEffect::Emit(b)
            },
            Token::Input => StepEffect::AwaitInput,
            Token::LoopOpen => {
                if self.memory[self.data_pointer] == 0 {
                    match self.scan_forward(ip + 1) {
                        Some(j) => {
                            self.instruction_pointer = j + 1;
                            StepEffect::Advanced
                        },
                        None => StepEffect::UnbalancedLoop,
                    }
                } else {
                    self.instruction_pointer = ip + 1;
                    StepEffect::Advanced
                }
            },
            Token::LoopClose => {
                if self.memory[self.data_pointer] != 0 {
                    match self.scan_backward(ip) {
                        Some(j) => {
                            self.instruction_pointer = j + 1;
                            StepEffect::Advanced
                        },
                        None => StepEffect::UnbalancedLoop,
                    }
                } else {
                    self.instruction_pointer = ip + 1;
                    StepEffect::Advanced
                }
            },
            Token::Inspect => {
                let b: u8 = self.memory[self.data_pointer];
                let dp: usize = self.data_pointer;
                self.instruction_pointer = ip + 1;
                StepEffect::Trace(ip, dp, b)
            },
            Token::Unknown => {
                self.instruction_pointer = ip + 1;
                StepEffect::UnknownKeyword
            },
        }
    }

    /// Hand the machine the byte that the current read token asked for:
    /// it lands in the current cell and the machine moves on.
    pub fn provide_input(&mut self, byte: u8)
        requires
            old(self).wf(),
            old(self).instruction_pointer < old(self).tokens@.len(),
            old(self).tokens@[old(self).instruction_pointer as int] == Token::Input,
        ensures
            final(self).wf(),
            final(self).memory@ == old(self).memory@.update(old(self).data_pointer as int, byte),
            final(self).data_pointer == old(self).data_pointer,
            final(self).tokens@ == old(self).tokens@,
            final(self).instruction_pointer == old(self).instruction_pointer + 1,
    {
        let n: usize = self.tokens.len();
        let dp: usize = self.data_pointer;
        self.memory.set(dp, byte);
        assert(self.instruction_pointer < n);
        self.instruction_pointer = self.instruction_pointer + 1;
    }

    /// Run the program over a given input stream, for at most `fuel`
    /// steps: the tape, data pointer, output, unknown-keyword count and
    /// final status are exactly what `run_model` states for the starting
    /// state.
    #[verifier::loop_isolation(false)]
    pub fn execute(&mut self, input: &Vec<u8>, fuel: u64) -> (r: RunOutcome)
        requires
            old(self).wf(),
        ensures
            final(self).wf(),
            final(self).tokens@ == old(self).tokens@,
            ({
                let m = run_model(
                    old(self).memory@,
                    old(self).data_pointer as int,
                    old(self).tokens@,
                    old(self).instruction_pointer as int,
                    input@,
                    fuel as nat,
                );
                &&& final(self).memory@ == m.0
                &&& final(self).data_pointer as int == m.1
                &&& r.output@ == m.2
                &&& r.unknown_count as int == m.3
                &&& r.status == m.4
            }),
    {
        let ghost m = run_model(
            old(self).memory@,
            old(self).data_pointer as int,
            old(self).tokens@,
            old(self).instruction_pointer as int,
            input@,
            fuel as nat,
        );
        let mut out: Vec<u8> = Vec::new();
        let mut unknown: u64 = 0;
        let mut fuel_left: u64 = fuel;
        let mut inpos: usize = 0;
        proof {
            assert(input@.skip(0) =~= input@);
        }
        loop
            invariant
                self.wf(),
                self.tokens@ == old(self).tokens@,
                inpos <= input@.len(),
                fuel_left <= fuel,
                unknown as int <= fuel - fuel_left,
                ({
                    let c = run_model(
                        self.memory@,
                        self.data_pointer as int,
                        self.tokens@,
                        self.instruction_pointer as int,
                        input@.skip(inpos as int),
                        fuel_left as nat,
                    );
                    &&& m.0 == c.0
                    &&& m.1 == c.1
                    &&& m.2 == out@ + c.2
                    &&& m.3 == unknown + c.3
                    &&& m.4 == c.4
                }),
            decreases fuel_left,
        {
            let ghost rem_input = input@.skip(inpos as int);
            let ghost c = run_model(
                self.memory@,
                self.data_pointer as int,
                self.tokens@,
                self.instruction_pointer as int,
                rem_input,
                fuel_left as nat,
            );
            if self.instruction_pointer >= self.tokens.len() {
                proof {
                    assert(c.2 =~= Seq::<u8>::empty());
                    assert(m.2 =~= out@ + Seq::<u8>::empty());
                    assert(out@ + Seq::<u8>::empty() =~= out@);
                }
                return RunOutcome { output: out, unknown_count: unknown, status: Status::Halted };
            }
            if fuel_left == 0 {
                proof {
                    assert(out@ + Seq::<u8>::empty() =~= out@);
                }
                return RunOutcome { output: out, unknown_count: unknown, status: Status::OutOfFuel };
            }
            let eff = self.step();
            let ghost post = *self;
            let ghost cnext = run_model(
                post.memory@,
                post.data_pointer as int,
                post.tokens@,
                post.instruction_pointer as int,
                rem_input,
                (fuel_left - 1) as nat,
            );
            match eff {
                StepEffect::Advanced => {
                    proof {
                        assert(c == cnext);
                    }
                },
                StepEffect::Emit(b) => {
                    let ghost out0 = out@;
                    out.push(b);
                    proof {
                        assert(c.2 == seq![b] + cnext.2);
                        assert(out0 + (seq![b] + cnext.2) =~= out@ + cnext.2);
                    }
                },
                StepEffect::AwaitInput => {
                    if inpos >= input.len() {
                        proof {
                            assert(rem_input.len() == 0);
                            assert(out@ + Seq::<u8>::empty() =~= out@);
                        }
                        return RunOutcome {
                            output: out,
                            unknown_count: unknown,
                            status: Status::InputExhausted,
                        };
                    }
                    let b: u8 = input[inpos];
                    proof {
                        assert(rem_input[0] == b);
                        assert(rem_input.skip(1) =~= input@.skip(inpos as int + 1));
                    }
                    self.provide_input(b);
                    inpos = inpos + 1;
                },
                StepEffect::UnknownKeyword => {
                    unknown = unknown + 1;
                },
                StepEffect::Trace(..) => {
                    proof {
                        assert(c == cnext);
                    }
                },
                StepEffect::UnbalancedLoop => {
                    proof {
                        assert(c.4 == Status::UnbalancedLoop);
                        assert(out@ + Seq::<u8>::empty() =~= out@);
                    }
                    return RunOutcome {
                        output: out,
                        unknown_count: unknown,
                        status: Status::UnbalancedLoop,
                    };
                },
                StepEffect::Halted => {
                    proof {
                        assert(false);
                    }
                },
            }
            fuel_left = fuel_left - 1;
        }
    }
}

} // verus!
