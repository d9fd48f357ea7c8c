//! The wire vocabulary: opcodes, error codes, commands and responses.

use crate::payload::{Payload, MAX_PAYLOAD_LEN};
use vstd::prelude::*;
use vstd::utf8::*;

verus! {

/// Opcode of a push: a payload line follows.
pub const OP_PUSH: u8 = 0x00;

/// Opcode of a pop.
pub const OP_POP: u8 = 0x01;

/// Opcode of a peek.
pub const OP_PEEK: u8 = 0x02;

/// Opcode of a clear.
pub const OP_CLEAR: u8 = 0x03;

/// Error byte sent when a pop or a peek finds the stack empty.
pub const ERR_EMPTY_STACK: u8 = 0x04;

/// Error byte sent when a pushed payload is longer than the cap.
pub const ERR_LARGE_STRING: u8 = 0x05;

/// The operation that a request selects.
#[derive(Clone, Copy, Debug, PartialEq, Eq, Structural)]
pub enum Opcode {
    Push,
    Pop,
    Peek,
    Clear,
}

impl Opcode {
    /// The opcode that a byte stands for, if it stands for one.
    pub open spec fn spec_from_byte(byte: u8) -> Option<Opcode> {
        if byte == OP_PUSH {
            Some(Opcode::Push)
        } else if byte == OP_POP {
            Some(Opcode::Pop)
        } else if byte == OP_PEEK {
            Some(Opcode::Peek)
        } else if byte == OP_CLEAR {
            Some(Opcode::Clear)
        } else {
            None
        }
    }

    /// Decodes the first byte of a request. Every byte above `0x03` is unknown.
    pub fn from_byte(byte: u8) -> (op: Option<Opcode>)
        ensures
            op == Self::spec_from_byte(byte),
            op is None <==> byte > OP_CLEAR,
    {
        match byte {
            0x00 => Some(Opcode::Push),
            0x01 => Some(Opcode::Pop),
            0x02 => Some(Opcode::Peek),
            0x03 => Some(Opcode::Clear),
            _ => None,
        }
    }
}

/// Why a request was answered with an error byte.
#[derive(Clone, Copy, Debug, PartialEq, Eq, Structural)]
pub enum ErrorCode {
    /// A pop or a peek found nothing on the stack.
    EmptyStack,
    /// The payload of a push was longer than the cap.
    LargeString,
}

impl ErrorCode {
    /// The byte that reports this error.
    pub open spec fn spec_code(self) -> u8 {
        match self {
            ErrorCode::EmptyStack => ERR_EMPTY_STACK,
            ErrorCode::LargeString => ERR_LARGE_STRING,
        }
    }

    /// The byte that reports this error: `0x04` for an empty stack, `0x05` for
    /// a payload that is too long.
    #[verifier::when_used_as_spec(spec_code)]
    pub fn code(self) -> (byte: u8)
        ensures
            byte == self.spec_code(),
    {
        match self {
            ErrorCode::EmptyStack => ERR_EMPTY_STACK,
            ErrorCode::LargeString => ERR_LARGE_STRING,
        }
    }
}

/// One request against the stack, ready to be applied.
#[derive(Debug, PartialEq, Eq)]
pub enum Command {
    Push(Payload),
    Pop,
    Peek,
    Clear,
}

/// What a [`Command`] is to the contracts.
pub enum CommandView {
    Push(Seq<char>),
    Pop,
    Peek,
    Clear,
}

impl View for Command {
    type V = CommandView;

    open spec fn view(&self) -> CommandView {
        match self {
            Command::Push(payload) => CommandView::Push(payload@),
            Command::Pop => CommandView::Pop,
            Command::Peek => CommandView::Peek,
            Command::Clear => CommandView::Clear,
        }
    }
}

/// The single reply to a request.
#[derive(Debug, PartialEq, Eq)]
pub enum Response {
    /// A value from the stack.
    Value(Payload),
    /// Success with nothing to say: no byte is written.
    Empty,
    /// A failure, reported as one byte.
    Error(ErrorCode),
}

/// What a [`Response`] is to the contracts.
pub enum ResponseView {
    Value(Seq<char>),
    Empty,
    Error(ErrorCode),
}

impl ResponseView {
    /// The bytes that carry the reply: the UTF-8 encoding of a value, nothing
    /// for an empty reply, the error byte for a failure.
    pub open spec fn wire_bytes(self) -> Seq<u8> {
        match self {
            ResponseView::Value(text) => encode_utf8(text),
            ResponseView::Empty => Seq::<u8>::empty(),
            ResponseView::Error(code) => seq![code.spec_code()],
        }
    }
}

impl View for Response {
    type V = ResponseView;

    open spec fn view(&self) -> ResponseView {
        match self {
            Response::Value(payload) => ResponseView::Value(payload@),
            Response::Empty => ResponseView::Empty,
            Response::Error(code) => ResponseView::Error(*code),
        }
    }
}

impl Response {
    /// The bytes to write back on the connection. No reply is longer than the
    /// longest payload.
    pub fn to_bytes(&self) -> (bytes: Vec<u8>)
        ensures
            bytes@ == self@.wire_bytes(),
            bytes@.len() <= MAX_PAYLOAD_LEN,
    {
        match self {
            Response::Value(payload) => payload.to_bytes(),
            Response::Empty => Vec::new(),
            Response::Error(code) => {
                let mut bytes: Vec<u8> = Vec::new();
                bytes.push(code.code());
                bytes
            },
        }
    }
}

} // verus!
