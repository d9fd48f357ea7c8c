use ztacker::payload::Payload;
use ztacker::protocol::{Command, ErrorCode, Response};
use ztacker::session::{serve, step, Action, Event, Phase};
use ztacker::stack::Stack;

fn push(stack: &mut Stack, text: &str) -> Vec<u8> {
    serve(stack, Some(0x00), Some(format!("{}\n", text)))
}

fn pop(stack: &mut Stack) -> Vec<u8> {
    serve(stack, Some(0x01), None)
}

fn peek(stack: &mut Stack) -> Vec<u8> {
    serve(stack, Some(0x02), None)
}

fn clear(stack: &mut Stack) -> Vec<u8> {
    serve(stack, Some(0x03), None)
}

#[test]
fn push_opcode_asks_for_the_line() {
    assert_eq!(
        step(Phase::AwaitingOpcode, Event::Opcode(0x00)),
        (Phase::AwaitingPayload, Action::ReadLine)
    );
}

#[test]
fn other_opcodes_are_applied_at_once() {
    assert_eq!(
        step(Phase::AwaitingOpcode, Event::Opcode(0x01)),
        (Phase::Closed, Action::Apply(Command::Pop))
    );
    assert_eq!(
        step(Phase::AwaitingOpcode, Event::Opcode(0x02)),
        (Phase::Closed, Action::Apply(Command::Peek))
    );
    assert_eq!(
        step(Phase::AwaitingOpcode, Event::Opcode(0x03)),
        (Phase::Closed, Action::Apply(Command::Clear))
    );
}

#[test]
fn unknown_opcode_closes() {
    for byte in 0x04..=0xffu8 {
        assert_eq!(
            step(Phase::AwaitingOpcode, Event::Opcode(byte)),
            (Phase::Closed, Action::Close)
        );
    }
}

#[test]
fn payload_line_becomes_a_push() {
    assert_eq!(
        step(Phase::AwaitingPayload, Event::Line("/home/me\n".to_string())),
        (
            Phase::Closed,
            Action::Apply(Command::Push(Payload::parse("/home/me").unwrap()))
        )
    );
}

#[test]
fn payload_line_without_terminator_becomes_a_push() {
    assert_eq!(
        step(Phase::AwaitingPayload, Event::Line("/home/me".to_string())),
        (
            Phase::Closed,
            Action::Apply(Command::Push(Payload::parse("/home/me").unwrap()))
        )
    );
}

#[test]
fn oversized_payload_line_is_answered_with_the_error() {
    let line = format!("{}\n", "x".repeat(4097));
    assert_eq!(
        step(Phase::AwaitingPayload, Event::Line(line)),
        (
            Phase::Closed,
            Action::Reply(Response::Error(ErrorCode::LargeString))
        )
    );
}

#[test]
fn failed_read_closes() {
    assert_eq!(
        step(Phase::AwaitingOpcode, Event::Failed),
        (Phase::Closed, Action::Close)
    );
    assert_eq!(
        step(Phase::AwaitingPayload, Event::Failed),
        (Phase::Closed, Action::Close)
    );
}

#[test]
fn event_out_of_turn_closes() {
    assert_eq!(
        step(Phase::AwaitingOpcode, Event::Line("a\n".to_string())),
        (Phase::Closed, Action::Close)
    );
    assert_eq!(
        step(Phase::AwaitingPayload, Event::Opcode(0x01)),
        (Phase::Closed, Action::Close)
    );
}

#[test]
fn closed_session_stays_closed() {
    assert_eq!(
        step(Phase::Closed, Event::Opcode(0x01)),
        (Phase::Closed, Action::Close)
    );
    assert_eq!(
        step(Phase::Closed, Event::Line("a\n".to_string())),
        (Phase::Closed, Action::Close)
    );
    assert_eq!(step(Phase::Closed, Event::Failed), (Phase::Closed, Action::Close));
}

#[test]
fn push_then_pop_gives_the_text_back() {
    let mut stack = Stack::new();
    push(&mut stack, "below");
    assert!(push(&mut stack, "/var/log").is_empty());
    assert_eq!(stack.len(), 2);
    assert_eq!(pop(&mut stack), b"/var/log".to_vec());
    assert_eq!(stack.len(), 1);
    assert_eq!(stack.peek().unwrap().as_str(), "below");
}

#[test]
fn push_then_pop_at_the_cap() {
    let mut stack = Stack::new();
    let text = "z".repeat(4096);
    assert!(push(&mut stack, &text).is_empty());
    assert_eq!(pop(&mut stack), text.into_bytes());
    assert!(stack.is_empty());
}

#[test]
fn push_then_pop_of_the_empty_text() {
    let mut stack = Stack::new();
    assert!(push(&mut stack, "").is_empty());
    assert_eq!(stack.len(), 1);
    assert!(pop(&mut stack).is_empty());
    assert!(stack.is_empty());
}

#[test]
fn pops_come_back_last_first() {
    let mut stack = Stack::new();
    for text in ["one", "two", "three", "four"] {
        assert!(push(&mut stack, text).is_empty());
    }
    assert_eq!(pop(&mut stack), b"four".to_vec());
    assert_eq!(pop(&mut stack), b"three".to_vec());
    assert_eq!(pop(&mut stack), b"two".to_vec());
    assert_eq!(pop(&mut stack), b"one".to_vec());
    assert!(stack.is_empty());
}

#[test]
fn repeated_peeks_agree() {
    let mut stack = Stack::new();
    push(&mut stack, "a");
    push(&mut stack, "b");
    for _ in 0..5 {
        assert_eq!(peek(&mut stack), b"b".to_vec());
        assert_eq!(stack.len(), 2);
    }
}

#[test]
fn repeated_peeks_of_an_empty_stack_agree() {
    let mut stack = Stack::new();
    for _ in 0..3 {
        assert_eq!(peek(&mut stack), vec![0x04]);
        assert!(stack.is_empty());
    }
}

#[test]
fn pop_of_an_empty_stack_is_signalled() {
    let mut stack = Stack::new();
    assert_eq!(pop(&mut stack), vec![0x04]);
    assert!(stack.is_empty());
}

#[test]
fn peek_of_an_empty_stack_is_signalled() {
    let mut stack = Stack::new();
    assert_eq!(peek(&mut stack), vec![0x04]);
    assert!(stack.is_empty());
}

#[test]
fn pop_after_the_last_text_is_signalled() {
    let mut stack = Stack::new();
    push(&mut stack, "only");
    assert_eq!(pop(&mut stack), b"only".to_vec());
    assert_eq!(pop(&mut stack), vec![0x04]);
}

#[test]
fn payload_of_4097_is_rejected() {
    let mut stack = Stack::new();
    push(&mut stack, "kept");
    assert_eq!(push(&mut stack, &"y".repeat(4097)), vec![0x05]);
    assert_eq!(stack.len(), 1);
    assert_eq!(peek(&mut stack), b"kept".to_vec());
    assert_eq!(pop(&mut stack), b"kept".to_vec());
    assert_eq!(pop(&mut stack), vec![0x04]);
}

#[test]
fn payload_of_4097_is_rejected_on_an_empty_stack() {
    let mut stack = Stack::new();
    assert_eq!(push(&mut stack, &"y".repeat(4097)), vec![0x05]);
    assert_eq!(peek(&mut stack), vec![0x04]);
}

#[test]
fn clear_then_peek_is_signalled() {
    let mut stack = Stack::new();
    for text in ["a", "b", "c"] {
        push(&mut stack, text);
    }
    assert!(clear(&mut stack).is_empty());
    assert_eq!(peek(&mut stack), vec![0x04]);
    assert!(stack.is_empty());
}

#[test]
fn clear_of_an_empty_stack() {
    let mut stack = Stack::new();
    assert!(clear(&mut stack).is_empty());
    assert_eq!(peek(&mut stack), vec![0x04]);
}

#[test]
fn opcode_0x09_is_silent() {
    let mut stack = Stack::new();
    push(&mut stack, "a");
    assert!(serve(&mut stack, Some(0x09), None).is_empty());
    assert!(serve(&mut stack, Some(0x09), Some("b\n".to_string())).is_empty());
    assert_eq!(stack.len(), 1);
    assert_eq!(peek(&mut stack), b"a".to_vec());
}

#[test]
fn failed_opcode_read_is_silent() {
    let mut stack = Stack::new();
    push(&mut stack, "a");
    assert!(serve(&mut stack, None, None).is_empty());
    assert!(serve(&mut stack, None, Some("b\n".to_string())).is_empty());
    assert_eq!(stack.len(), 1);
}

#[test]
fn failed_payload_read_is_silent() {
    let mut stack = Stack::new();
    push(&mut stack, "a");
    assert!(serve(&mut stack, Some(0x00), None).is_empty());
    assert_eq!(stack.len(), 1);
    assert_eq!(peek(&mut stack), b"a".to_vec());
}

#[test]
fn line_after_another_opcode_is_not_looked_at() {
    let mut stack = Stack::new();
    push(&mut stack, "a");
    assert_eq!(
        serve(&mut stack, Some(0x01), Some("ignored\n".to_string())),
        b"a".to_vec()
    );
    assert!(stack.is_empty());
}

#[test]
fn pushed_line_loses_only_its_terminator() {
    let mut stack = Stack::new();
    assert!(serve(&mut stack, Some(0x00), Some("a b \r\n".to_string())).is_empty());
    assert_eq!(pop(&mut stack), b"a b ".to_vec());
}

#[test]
fn pushes_in_any_order_all_come_back() {
    let markers = ["m0", "m1", "m2", "m3", "m4"];
    let arrivals: [[usize; 5]; 4] = [
        [0, 1, 2, 3, 4],
        [4, 3, 2, 1, 0],
        [2, 0, 4, 1, 3],
        [1, 4, 0, 3, 2],
    ];
    for arrival in arrivals {
        let mut stack = Stack::new();
        push(&mut stack, "under");
        for i in arrival {
            assert!(push(&mut stack, markers[i]).is_empty());
        }
        let mut popped: Vec<Vec<u8>> = Vec::new();
        for _ in 0..markers.len() {
            popped.push(pop(&mut stack));
        }
        popped.sort();
        let mut expected: Vec<Vec<u8>> = markers.iter().map(|m| m.as_bytes().to_vec()).collect();
        expected.sort();
        assert_eq!(popped, expected);
        assert_eq!(stack.len(), 1);
        assert_eq!(peek(&mut stack), b"under".to_vec());
    }
}
