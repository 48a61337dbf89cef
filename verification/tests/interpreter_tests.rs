use i_use_arch_btw::machine::{Interpreter, RunOutcome, Status, StepEffect, TAPE_LEN};
use i_use_arch_btw::tokenizer::{tokenize, Token};

fn run_source(src: &[u8], input: &[u8], fuel: u64) -> (Interpreter, RunOutcome) {
    let toks = tokenize(&src.to_vec());
    let mut interp = Interpreter::new(toks);
    let outcome = interp.execute(&input.to_vec(), fuel);
    (interp, outcome)
}

#[test]
fn new_machine_starts_blank() {
    let interp = Interpreter::new(vec![]);
    assert_eq!(interp.memory.len(), TAPE_LEN);
    assert_eq!(interp.memory[0], 0);
    assert_eq!(interp.memory[TAPE_LEN - 1], 0);
    assert_eq!(interp.data_pointer, 0);
    assert_eq!(interp.instruction_pointer, 0);
}

#[test]
fn three_increments_output_code_three() {
    let (interp, outcome) = run_source(b"arch arch arch btw", b"", 100);
    assert_eq!(interp.memory[0], 3);
    assert_eq!(outcome.output, vec![3u8]);
    assert_eq!(outcome.status, Status::Halted);
    assert_eq!(outcome.unknown_count, 0);
}

#[test]
fn empty_loop_on_zero_cell_terminates_immediately() {
    let (_, outcome) = run_source(b"the way", b"", 100);
    assert_eq!(outcome.output, vec![]);
    assert_eq!(outcome.status, Status::Halted);
    assert_eq!(outcome.unknown_count, 0);
}

#[test]
fn move_increment_output_and_move_back() {
    let (interp, outcome) = run_source(b"i arch btw use btw", b"", 100);
    assert_eq!(outcome.output, vec![1u8, 0u8]);
    assert_eq!(outcome.status, Status::Halted);
    assert_eq!(interp.memory[1], 1);
    assert_eq!(interp.data_pointer, 0);
}

#[test]
fn unknown_token_reports_once_and_leaves_the_state() {
    let (interp, outcome) = run_source(b"foo btw", b"", 100);
    assert_eq!(outcome.unknown_count, 1);
    assert_eq!(outcome.output, vec![0u8]);
    assert_eq!(outcome.status, Status::Halted);
    assert_eq!(interp.memory[0], 0);
}

#[test]
fn read_then_write_echoes_the_input_byte() {
    let (interp, outcome) = run_source(b"by btw", b"A", 100);
    assert_eq!(outcome.output, vec![b'A']);
    assert_eq!(outcome.status, Status::Halted);
    assert_eq!(interp.memory[0], b'A');
}

#[test]
fn pointer_saturates_at_the_left_edge() {
    let (interp, outcome) = run_source(b"use use i", b"", 100);
    assert_eq!(outcome.status, Status::Halted);
    assert_eq!(interp.data_pointer, 1);
}

#[test]
fn pointer_saturates_at_the_right_edge() {
    let mut toks: Vec<Token> = Vec::new();
    for _ in 0..TAPE_LEN + 5 {
        toks.push(Token::MoveRight);
    }
    let mut interp = Interpreter::new(toks);
    let outcome = interp.execute(&vec![], (TAPE_LEN + 10) as u64);
    assert_eq!(outcome.status, Status::Halted);
    assert_eq!(interp.data_pointer, TAPE_LEN - 1);
}

#[test]
fn cell_wraps_down_past_zero() {
    let (interp, outcome) = run_source(b"linux", b"", 100);
    assert_eq!(outcome.status, Status::Halted);
    assert_eq!(interp.memory[0], 255);
}

#[test]
fn cell_wraps_up_past_two_hundred_fifty_five() {
    let mut toks: Vec<Token> = Vec::new();
    for _ in 0..300 {
        toks.push(Token::Increment);
    }
    let mut interp = Interpreter::new(toks);
    let outcome = interp.execute(&vec![], 1000);
    assert_eq!(outcome.status, Status::Halted);
    assert_eq!(interp.memory[0], 44);
}

#[test]
fn net_increments_and_decrements_reach_the_cell() {
    let (interp, outcome) = run_source(b"arch arch arch linux", b"", 100);
    assert_eq!(outcome.status, Status::Halted);
    assert_eq!(interp.memory[0], 2);
}

#[test]
fn loop_with_zero_cell_skips_its_body() {
    let (interp, outcome) = run_source(b"the arch way", b"", 100);
    assert_eq!(outcome.status, Status::Halted);
    assert_eq!(interp.memory[0], 0);
    assert_eq!(outcome.output, vec![]);
}

#[test]
fn loop_runs_until_the_cell_is_zero() {
    let (interp, outcome) = run_source(b"arch arch arch the btw linux way", b"", 1000);
    assert_eq!(outcome.status, Status::Halted);
    assert_eq!(outcome.output, vec![3u8, 2u8, 1u8]);
    assert_eq!(interp.memory[0], 0);
}

#[test]
fn loop_multiplies_through_repetition() {
    let (interp, outcome) = run_source(b"arch arch arch the i arch arch use linux way i btw", b"", 1000);
    assert_eq!(outcome.status, Status::Halted);
    assert_eq!(outcome.output, vec![6u8]);
    assert_eq!(interp.memory[0], 0);
    assert_eq!(interp.memory[1], 6);
}

#[test]
fn nested_loops_skip_as_one_block() {
    let (interp, outcome) = run_source(b"the the way way arch", b"", 100);
    assert_eq!(outcome.status, Status::Halted);
    assert_eq!(interp.memory[0], 1);
}

#[test]
fn unmatched_loop_open_is_fatal() {
    let (_, outcome) = run_source(b"the", b"", 100);
    assert_eq!(outcome.status, Status::UnbalancedLoop);
}

#[test]
fn unmatched_loop_close_is_fatal() {
    let (_, outcome) = run_source(b"arch way", b"", 100);
    assert_eq!(outcome.status, Status::UnbalancedLoop);
}

#[test]
fn reading_past_the_input_is_fatal() {
    let (_, outcome) = run_source(b"by", b"", 100);
    assert_eq!(outcome.status, Status::InputExhausted);
}

#[test]
fn run_out_of_fuel_stops_early() {
    let (interp, outcome) = run_source(b"arch", b"", 0);
    assert_eq!(outcome.status, Status::OutOfFuel);
    assert_eq!(interp.memory[0], 0);
}

#[test]
fn inspect_runs_without_output() {
    let (_, outcome) = run_source(b"gentoo", b"", 100);
    assert_eq!(outcome.status, Status::Halted);
    assert_eq!(outcome.output, vec![]);
    assert_eq!(outcome.unknown_count, 0);
}

#[test]
fn step_emits_the_current_cell() {
    let mut interp = Interpreter::new(vec![Token::Increment, Token::Output]);
    assert_eq!(interp.step(), StepEffect::Advanced);
    assert_eq!(interp.step(), StepEffect::Emit(1));
    assert_eq!(interp.step(), StepEffect::Halted);
}

#[test]
fn step_awaits_then_takes_input() {
    let mut interp = Interpreter::new(vec![Token::Input, Token::Output]);
    assert_eq!(interp.step(), StepEffect::AwaitInput);
    assert_eq!(interp.instruction_pointer, 0);
    interp.provide_input(7);
    assert_eq!(interp.instruction_pointer, 1);
    assert_eq!(interp.memory[0], 7);
    assert_eq!(interp.step(), StepEffect::Emit(7));
}

#[test]
fn step_reports_an_unknown_keyword() {
    let mut interp = Interpreter::new(tokenize(&b"btrfs".to_vec()));
    assert_eq!(interp.step(), StepEffect::UnknownKeyword);
    assert_eq!(interp.step(), StepEffect::Halted);
}

#[test]
fn step_trace_reports_logical_positions() {
    let mut interp = Interpreter::new(vec![Token::MoveRight, Token::Increment, Token::Inspect]);
    assert_eq!(interp.step(), StepEffect::Advanced);
    assert_eq!(interp.step(), StepEffect::Advanced);
    assert_eq!(interp.step(), StepEffect::Trace(2, 1, 1));
}

#[test]
fn step_reports_an_unbalanced_loop() {
    let mut interp = Interpreter::new(vec![Token::LoopOpen]);
    assert_eq!(interp.step(), StepEffect::UnbalancedLoop);
}

#[test]
fn pointer_methods_saturate() {
    let mut interp = Interpreter::new(vec![]);
    interp.decrement_data_pointer();
    assert_eq!(interp.data_pointer, 0);
    interp.increment_data_pointer();
    assert_eq!(interp.data_pointer, 1);
}

#[test]
fn value_methods_wrap() {
    let mut interp = Interpreter::new(vec![]);
    interp.increment_value();
    assert_eq!(interp.memory[0], 1);
    interp.decrement_value();
    interp.decrement_value();
    assert_eq!(interp.memory[0], 255);
    interp.increment_value();
    assert_eq!(interp.memory[0], 0);
}
