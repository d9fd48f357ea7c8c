//! The course of one connection: an opcode, a payload line if the opcode asks
//! for one, one reply at most, and the end.
//!
//! Nothing here reads or writes. The transport reports what arrived as an
//! [`Event`], [`step`] decides, and the transport carries out the [`Action`].

use crate::payload::{spec_fits, spec_strip_terminator, Payload, MAX_PAYLOAD_LEN};
use crate::protocol::{
    Command, CommandView, ErrorCode, Opcode, Response, ResponseView, OP_CLEAR, OP_PEEK, OP_POP,
    OP_PUSH,
};
use crate::stack::Stack;
use vstd::prelude::*;
use vstd::utf8::encode_utf8;

verus! {

/// Where a connection stands.
#[derive(Clone, Copy, Debug, PartialEq, Eq, Structural)]
pub enum Phase {
    /// Nothing has arrived yet.
    AwaitingOpcode,
    /// A push opcode has arrived, its payload line has not.
    AwaitingPayload,
    /// The request has been decided. Nothing more is read.
    Closed,
}

/// What the transport has to report.
#[derive(Debug, PartialEq, Eq)]
pub enum Event {
    /// The opcode byte arrived.
    Opcode(u8),
    /// A line arrived, with its line terminator if the peer sent one.
    Line(String),
    /// The read failed, or the peer went away.
    Failed,
}

/// What an [`Event`] is to the contracts.
pub enum EventView {
    Opcode(u8),
    Line(Seq<char>),
    Failed,
}

impl View for Event {
    type V = EventView;

    open spec fn view(&self) -> EventView {
        match self {
            Event::Opcode(byte) => EventView::Opcode(*byte),
            Event::Line(line) => EventView::Line(line@),
            Event::Failed => EventView::Failed,
        }
    }
}

/// What the transport is to do next.
#[derive(Debug, PartialEq, Eq)]
pub enum Action {
    /// Read one line and report it.
    ReadLine,
    /// Take the stack, apply the command, write the reply to it, and close.
    Apply(Command),
    /// Write this reply and close. The stack is not touched.
    Reply(Response),
    /// Close without writing.
    Close,
}

/// What an [`Action`] is to the contracts.
pub enum ActionView {
    ReadLine,
    Apply(CommandView),
    Reply(ResponseView),
    Close,
}

impl View for Action {
    type V = ActionView;

    open spec fn view(&self) -> ActionView {
        match self {
            Action::ReadLine => ActionView::ReadLine,
            Action::Apply(command) => ActionView::Apply(command@),
            Action::Reply(response) => ActionView::Reply(response@),
            Action::Close => ActionView::Close,
        }
    }
}

/// The phase that follows an event, and the action that it calls for.
///
/// An opcode is expected first. A push asks for its payload line; a pop, a peek
/// and a clear are applied as they are; any other byte closes the connection.
/// The payload line is stripped of its line terminators and pushed if it is
/// short enough; if not, the reply is the large-string error. A failed read
/// closes the connection, and so does any event that the phase does not expect.
pub open spec fn spec_step(phase: Phase, event: EventView) -> (Phase, ActionView) {
    match (phase, event) {
        (Phase::AwaitingOpcode, EventView::Opcode(byte)) => match Opcode::spec_from_byte(byte) {
            Some(Opcode::Push) => (Phase::AwaitingPayload, ActionView::ReadLine),
            Some(Opcode::Pop) => (Phase::Closed, ActionView::Apply(CommandView::Pop)),
            Some(Opcode::Peek) => (Phase::Closed, ActionView::Apply(CommandView::Peek)),
            Some(Opcode::Clear) => (Phase::Closed, ActionView::Apply(CommandView::Clear)),
            None => (Phase::Closed, ActionView::Close),
        },
        (Phase::AwaitingPayload, EventView::Line(line)) => if spec_fits(
            spec_strip_terminator(line),
        ) {
            (Phase::Closed, ActionView::Apply(CommandView::Push(spec_strip_terminator(line))))
        } else {
            (Phase::Closed, ActionView::Reply(ResponseView::Error(ErrorCode::LargeString)))
        },
        _ => (Phase::Closed, ActionView::Close),
    }
}

/// Decides what follows an event.
pub fn step(phase: Phase, event: Event) -> (next: (Phase, Action))
    ensures
        next.0 == spec_step(phase, event@).0,
        next.1@ == spec_step(phase, event@).1,
{
    match (phase, event) {
        (Phase::AwaitingOpcode, Event::Opcode(byte)) => match Opcode::from_byte(byte) {
            Some(Opcode::Push) => (Phase::AwaitingPayload, Action::ReadLine),
            Some(Opcode::Pop) => (Phase::Closed, Action::Apply(Command::Pop)),
            Some(Opcode::Peek) => (Phase::Closed, Action::Apply(Command::Peek)),
            Some(Opcode::Clear) => (Phase::Closed, Action::Apply(Command::Clear)),
            None => (Phase::Closed, Action::Close),
        },
        (Phase::AwaitingPayload, Event::Line(line)) => match Payload::parse(line.as_str()) {
            Some(payload) => (Phase::Closed, Action::Apply(Command::Push(payload))),
            None => (Phase::Closed, Action::Reply(Response::Error(ErrorCode::LargeString))),
        },
        _ => (Phase::Closed, Action::Close),
    }
}

/// What one whole exchange does to the stack, and the bytes that it writes
/// back. `opcode` is the byte that arrived first, or `None` if none did;
/// `line` is the line that arrived after a push opcode, or `None` if none did.
pub open spec fn spec_exchange(
    stack: Seq<Seq<char>>,
    opcode: Option<u8>,
    line: Option<Seq<char>>,
) -> (Seq<Seq<char>>, Seq<u8>) {
    if opcode == Some(OP_PUSH) {
        match line {
            Some(text) => if spec_fits(spec_strip_terminator(text)) {
                (stack.push(spec_strip_terminator(text)), Seq::<u8>::empty())
            } else {
                (stack, seq![ErrorCode::LargeString.spec_code()])
            },
            None => (stack, Seq::<u8>::empty()),
        }
    } else if opcode == Some(OP_POP) {
        if stack.len() == 0 {
            (stack, seq![ErrorCode::EmptyStack.spec_code()])
        } else {
            (stack.drop_last(), encode_utf8(stack.last()))
        }
    } else if opcode == Some(OP_PEEK) {
        if stack.len() == 0 {
            (stack, seq![ErrorCode::EmptyStack.spec_code()])
        } else {
            (stack, encode_utf8(stack.last()))
        }
    } else if opcode == Some(OP_CLEAR) {
        (Seq::<Seq<char>>::empty(), Seq::<u8>::empty())
    } else {
        (stack, Seq::<u8>::empty())
    }
}

/// The line as the contracts see it.
pub open spec fn spec_line(line: Option<String>) -> Option<Seq<char>> {
    match line {
        Some(text) => Some(text@),
        None => None,
    }
}

/// Runs one whole exchange against the stack for a transport that has already
/// delivered all it will deliver, and gives the bytes to write back.
///
/// `opcode` is the first byte, or `None` if reading it failed. `line` is the
/// line after it, or `None` if reading it failed; it is looked at only after a
/// push opcode.
pub fn serve(stack: &mut Stack, opcode: Option<u8>, line: Option<String>) -> (reply: Vec<u8>)
    ensures
        final(stack)@ == spec_exchange(old(stack)@, opcode, spec_line(line)).0,
        reply@ == spec_exchange(old(stack)@, opcode, spec_line(line)).1,
        reply@.len() <= MAX_PAYLOAD_LEN,
{
    let first = match opcode {
        Some(byte) => Event::Opcode(byte),
        None => Event::Failed,
    };
    let (phase, action) = step(Phase::AwaitingOpcode, first);
    let action = match action {
        Action::ReadLine => {
            let second = match line {
                Some(text) => Event::Line(text),
                None => Event::Failed,
            };
            step(phase, second).1
        },
        other => other,
    };
    match action {
        Action::Apply(command) => stack.apply(command).to_bytes(),
        Action::Reply(response) => response.to_bytes(),
        _ => Vec::new(),
    }
}

/// What a transport delivers on one connection: the opcode byte and the line
/// after it, each `None` if it did not arrive.
pub struct Delivery {
    pub opcode: Option<u8>,
    pub line: Option<Seq<char>>,
}

/// What a run of exchanges, one after the other, does to the stack, and the
/// bytes that each of them writes back.
pub open spec fn spec_exchanges(stack: Seq<Seq<char>>, deliveries: Seq<Delivery>) -> (
    Seq<Seq<char>>,
    Seq<Seq<u8>>,
)
    decreases deliveries.len(),
{
    if deliveries.len() == 0 {
        (stack, Seq::<Seq<u8>>::empty())
    } else {
        let first = spec_exchange(stack, deliveries[0].opcode, deliveries[0].line);
        let rest = spec_exchanges(first.0, deliveries.drop_first());
        (rest.0, seq![first.1] + rest.1)
    }
}

} // verus!
