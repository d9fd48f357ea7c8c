//! The stack itself: an ordered sequence of texts, the last one on top.

use crate::payload::Payload;
use crate::protocol::{Command, CommandView, ErrorCode, Response, ResponseView};
use vstd::prelude::*;

verus! {

/// What a command does to a stack and what it answers.
///
/// A push puts its payload on top and answers nothing. A pop takes the top off
/// and answers it. A peek answers the top and leaves it. A clear empties the
/// stack and answers nothing. A pop or a peek of an empty stack answers the
/// empty-stack error and changes nothing.
pub open spec fn spec_apply(stack: Seq<Seq<char>>, command: CommandView) -> (
    Seq<Seq<char>>,
    ResponseView,
) {
    match command {
        CommandView::Push(text) => (stack.push(text), ResponseView::Empty),
        CommandView::Pop => if stack.len() == 0 {
            (stack, ResponseView::Error(ErrorCode::EmptyStack))
        } else {
            (stack.drop_last(), ResponseView::Value(stack.last()))
        },
        CommandView::Peek => if stack.len() == 0 {
            (stack, ResponseView::Error(ErrorCode::EmptyStack))
        } else {
            (stack, ResponseView::Value(stack.last()))
        },
        CommandView::Clear => (Seq::empty(), ResponseView::Empty),
    }
}

/// A stack of texts. Whoever holds it mutably holds it alone, so each
/// operation runs to its end before another begins.
#[derive(Debug)]
pub struct Stack {
    entries: Vec<Payload>,
}

impl View for Stack {
    type V = Seq<Seq<char>>;

    /// The texts from the bottom to the top.
    closed spec fn view(&self) -> Seq<Seq<char>> {
        Seq::new(self.entries@.len(), |i: int| self.entries@[i]@)
    }
}

impl Default for Stack {
    fn default() -> (stack: Stack)
        ensures
            stack@ == Seq::<Seq<char>>::empty(),
    {
        Stack::new()
    }
}

impl Stack {
    /// An empty stack.
    pub fn new() -> (stack: Stack)
        ensures
            stack@ == Seq::<Seq<char>>::empty(),
    {
        Stack { entries: Vec::new() }
    }

    /// How many texts the stack holds.
    pub fn len(&self) -> (n: usize)
        ensures
            n == self@.len(),
    {
        self.entries.len()
    }

    /// Whether the stack holds nothing.
    pub fn is_empty(&self) -> (empty: bool)
        ensures
            empty == (self@.len() == 0),
    {
        self.entries.len() == 0
    }

    /// Puts a text on top.
    pub fn push(&mut self, value: Payload)
        ensures
            final(self)@ == old(self)@.push(value@),
    {
        self.entries.push(value);
    }

    /// Takes the top off, if there is one.
    pub fn pop(&mut self) -> (top: Option<Payload>)
        ensures
            top is Some <==> old(self)@.len() > 0,
            top matches Some(value) ==> value@ == old(self)@.last() && final(self)@ == old(
                self,
            )@.drop_last(),
            top is None ==> final(self)@ == old(self)@,
    {
        self.entries.pop()
    }

    /// The top, if there is one. The stack keeps it.
    pub fn peek(&self) -> (top: Option<&Payload>)
        ensures
            top is Some <==> self@.len() > 0,
            top matches Some(value) ==> value@ == self@.last(),
    {
        let n = self.entries.len();
        if n == 0 {
            None
        } else {
            Some(&self.entries[n - 1])
        }
    }

    /// Takes everything off.
    pub fn clear(&mut self)
        ensures
            final(self)@ == Seq::<Seq<char>>::empty(),
    {
        self.entries.clear();
    }

    /// Applies one command and gives the reply to it.
    pub fn apply(&mut self, command: Command) -> (reply: Response)
        ensures
            final(self)@ == spec_apply(old(self)@, command@).0,
            reply@ == spec_apply(old(self)@, command@).1,
    {
        match command {
            Command::Push(payload) => {
                self.push(payload);
                Response::Empty
            },
            Command::Pop => match self.pop() {
                Some(value) => Response::Value(value),
                None => Response::Error(ErrorCode::EmptyStack),
            },
            Command::Peek => match self.peek() {
                Some(value) => Response::Value(value.clone()),
                None => Response::Error(ErrorCode::EmptyStack),
            },
            Command::Clear => {
                self.clear();
                Response::Empty
            },
        }
    }
}

} // verus!
