use tkx::interpreter::{Interpreter, StepOutcome, TAPE_LEN};

/// Drives a loaded interpreter until it halts, handing it bytes from `input`.
/// Gives back what it wrote, or `None` when it asked for input past the end.
fn drive(it: &mut Interpreter, input: &[u8]) -> Option<Vec<u8>> {
    let mut output = Vec::new();
    let mut next = 0;
    loop {
        match it.step() {
            StepOutcome::Halted => return Some(output),
            StepOutcome::Executed => {},
            StepOutcome::Output(b) => output.push(b),
            StepOutcome::NeedsInput => {
                if next == input.len() {
                    return None;
                }
                assert!(it.feed(input[next]));
                next += 1;
            },
        }
    }
}

fn run_source(source: &str, input: &[u8]) -> (Interpreter, Option<Vec<u8>>) {
    let mut it = Interpreter::new();
    assert_eq!(it.load_program(source), Ok(()));
    let out = drive(&mut it, input);
    (it, out)
}

#[test]
fn new_interpreter_is_zeroed() {
    let it = Interpreter::new();
    assert_eq!(it.pointer(), 0);
    assert_eq!(it.counter(), 0);
    assert_eq!(it.program_len(), 0);
    assert_eq!(it.jump_count(), 0);
    assert_eq!(it.cell_at(0), Some(0));
    assert_eq!(it.cell_at(TAPE_LEN - 1), Some(0));
    assert_eq!(it.cell_at(TAPE_LEN), None);
    assert!(it.is_halted());
}

#[test]
fn multiply_loop_prints_at_sign() {
    let (_, out) = run_source("++++++++[>++++++++<-]>.", &[]);
    assert_eq!(out, Some(vec![64]));
    assert_eq!(out.unwrap(), "@".as_bytes().to_vec());
}

#[test]
fn echo_one_byte() {
    let (_, out) = run_source(",.", &[65]);
    assert_eq!(out, Some(vec![b'A']));
}

#[test]
fn comment_only_source_halts_at_once() {
    let mut it = Interpreter::new();
    assert_eq!(it.load_program("this is only a comment\n"), Ok(()));
    assert_eq!(it.program_len(), 0);
    assert_eq!(it.step(), StepOutcome::Halted);
    assert_eq!(drive(&mut it, &[]), Some(vec![]));
}

#[test]
fn exhausted_input_is_reported() {
    let (it, out) = run_source("+,.", &[]);
    assert_eq!(out, None);
    assert_eq!(it.counter(), 1);
    assert_eq!(it.cell_at(0), Some(1));
}

#[test]
fn read_step_waits_for_input() {
    let mut it = Interpreter::new();
    assert_eq!(it.load_program(","), Ok(()));
    assert_eq!(it.step(), StepOutcome::NeedsInput);
    assert_eq!(it.step(), StepOutcome::NeedsInput);
    assert_eq!(it.counter(), 0);
    assert!(it.feed(7));
    assert_eq!(it.cell_at(0), Some(7));
    assert_eq!(it.counter(), 1);
    assert!(!it.feed(8));
    assert_eq!(it.cell_at(0), Some(7));
}

#[test]
fn feed_refused_on_other_instructions() {
    let mut it = Interpreter::new();
    assert_eq!(it.load_program("+"), Ok(()));
    assert!(!it.feed(9));
    assert_eq!(it.cell_at(0), Some(0));
    assert_eq!(it.counter(), 0);
}

#[test]
fn back_then_forward_keeps_pointer() {
    let (it, out) = run_source("<>", &[]);
    assert_eq!(out, Some(vec![]));
    assert_eq!(it.pointer(), 0);
}

#[test]
fn backward_from_zero_wraps_to_last_cell() {
    let (it, _) = run_source("<", &[]);
    assert_eq!(it.pointer(), TAPE_LEN - 1);
    assert_eq!(it.pointer(), 65535);
}

#[test]
fn full_turn_forward_returns_pointer() {
    let half = ">".repeat(TAPE_LEN / 2);
    let (mut it, _) = run_source(&half, &[]);
    assert_eq!(it.pointer(), 32768);
    assert_eq!(it.load_program(&half), Ok(()));
    assert_eq!(drive(&mut it, &[]), Some(vec![]));
    assert_eq!(it.pointer(), 0);
}

#[test]
fn forward_from_last_cell_wraps_to_zero() {
    let (it, out) = run_source("<+>-<.>.", &[]);
    assert_eq!(it.pointer(), 0);
    assert_eq!(out, Some(vec![1, 255]));
    assert_eq!(it.cell_at(65535), Some(1));
}

#[test]
fn cell_increment_wraps_after_256() {
    let (it, _) = run_source(&"+".repeat(256), &[]);
    assert_eq!(it.cell_at(0), Some(0));
    let (it, _) = run_source(&"+".repeat(300), &[]);
    assert_eq!(it.cell_at(0), Some(44));
}

#[test]
fn cell_decrement_wraps_below_zero() {
    let (it, out) = run_source("-.", &[]);
    assert_eq!(it.cell_at(0), Some(255));
    assert_eq!(out, Some(vec![255]));
}

#[test]
fn loop_skipped_when_cell_is_zero() {
    let (it, out) = run_source("[+.]+.", &[]);
    assert_eq!(out, Some(vec![1]));
    assert_eq!(it.counter(), 6);
}

#[test]
fn loop_start_jumps_past_matching_end() {
    let mut it = Interpreter::new();
    assert_eq!(it.load_program("[[-]]."), Ok(()));
    assert_eq!(it.step(), StepOutcome::Executed);
    assert_eq!(it.counter(), 5);
    assert_eq!(it.step(), StepOutcome::Output(0));
    assert_eq!(it.step(), StepOutcome::Halted);
}

#[test]
fn loop_end_jumps_past_matching_start() {
    let mut it = Interpreter::new();
    assert_eq!(it.load_program("++[-]"), Ok(()));
    assert_eq!(it.step(), StepOutcome::Executed);
    assert_eq!(it.step(), StepOutcome::Executed);
    assert_eq!(it.step(), StepOutcome::Executed);
    assert_eq!(it.counter(), 3);
    assert_eq!(it.step(), StepOutcome::Executed);
    assert_eq!(it.step(), StepOutcome::Executed);
    assert_eq!(it.counter(), 3);
    assert_eq!(it.cell_at(0), Some(1));
}

#[test]
fn hello_program_prints_text() {
    let source = "++++++++[>++++[>++>+++>+++>+<<<<-]>+>+>->>+[<]<-]>>.>---.+++++++..+++.>>.<-.<.+++.------.--------.>>+.";
    let (_, out) = run_source(source, &[]);
    assert_eq!(out, Some("Hello World!".as_bytes().to_vec()));
}

#[test]
fn reload_keeps_tape_and_resets_counter() {
    let mut it = Interpreter::new();
    assert_eq!(it.load_program(">+++"), Ok(()));
    assert_eq!(drive(&mut it, &[]), Some(vec![]));
    assert_eq!(it.load_program("."), Ok(()));
    assert_eq!(it.counter(), 0);
    assert_eq!(it.pointer(), 1);
    assert_eq!(drive(&mut it, &[]), Some(vec![3]));
}

#[test]
fn output_step_advances_counter() {
    let mut it = Interpreter::new();
    assert_eq!(it.load_program("+."), Ok(()));
    assert_eq!(it.step(), StepOutcome::Executed);
    assert_eq!(it.step(), StepOutcome::Output(1));
    assert_eq!(it.counter(), 2);
    assert!(it.is_halted());
}
