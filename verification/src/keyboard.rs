//! The keyboard of the host, reached through `tfc`.
//!
//! Whether the host accepts a key event is not for this library to decide,
//! and nothing is claimed of it. What is proved is which requests the library
//! makes: a [`Keyboard`] keeps, for the proofs alone, the list of the events
//! it was asked to inject, and the list of those that the host accepted.

use crate::keys::{Direction, KeyEvent};
use tfc::{Context, GenericError, Key, KeyboardContext};
use vstd::prelude::*;

verus! {

/// The keys of `tfc`, with the names that the crate gives them.
#[verifier::external_type_specification]
pub struct ExKey(Key);

/// The handle of `tfc` to the input layer of the host.
#[verifier::external_type_specification]
#[verifier::external_body]
pub struct ExContext(Context);

/// Why the host refused a request: the error of `tfc`, with the platform's
/// own error as the text that it displays.
#[derive(Debug, PartialEq, Eq)]
pub enum InjectionError {
    /// The platform gave an error of its own; this is its message.
    Platform(String),
    /// The character is no ASCII character that the host can type.
    UnsupportedAscii(u8),
    /// The character is none that the host can type.
    UnsupportedUnicode(char),
    /// The platform failed and gave no error.
    Unknown,
}

/// A key event that the host refused, with its place in the list that was
/// handed over.
#[derive(Debug, PartialEq, Eq)]
pub struct Refusal {
    /// The number of events before it in the list, all of them accepted.
    pub position: usize,
    /// The event that was refused.
    pub event: KeyEvent,
    /// Why the host refused it.
    pub cause: InjectionError,
}

/// Calls `tfc::Context::new`, which asks the host for a handle to its input
/// layer. Nothing is claimed of the outcome: the host may give one or refuse.
#[verifier::external_body]
fn new_context() -> (result: Result<Context, InjectionError>) {
    match Context::new() {
        Ok(context) => Ok(context),
        Err(GenericError::Platform(error)) => Err(InjectionError::Platform(error.to_string())),
        Err(GenericError::UnsupportedAscii(byte)) => Err(InjectionError::UnsupportedAscii(byte)),
        Err(GenericError::UnsupportedUnicode(ch)) => Err(InjectionError::UnsupportedUnicode(ch)),
        Err(GenericError::Unknown) => Err(InjectionError::Unknown),
    }
}

/// Calls `tfc::KeyboardContext::key_down` for the given key. Nothing is
/// claimed of the outcome: the host may accept or refuse the request.
#[verifier::external_body]
fn key_down(context: &mut Context, key: Key) -> (result: Result<(), InjectionError>) {
    match context.key_down(key) {
        Ok(()) => Ok(()),
        Err(GenericError::Platform(error)) => Err(InjectionError::Platform(error.to_string())),
        Err(GenericError::UnsupportedAscii(byte)) => Err(InjectionError::UnsupportedAscii(byte)),
        Err(GenericError::UnsupportedUnicode(ch)) => Err(InjectionError::UnsupportedUnicode(ch)),
        Err(GenericError::Unknown) => Err(InjectionError::Unknown),
    }
}

/// Calls `tfc::KeyboardContext::key_up` for the given key. Nothing is claimed
/// of the outcome: the host may accept or refuse the request.
#[verifier::external_body]
fn key_up(context: &mut Context, key: Key) -> (result: Result<(), InjectionError>) {
    match context.key_up(key) {
        Ok(()) => Ok(()),
        Err(GenericError::Platform(error)) => Err(InjectionError::Platform(error.to_string())),
        Err(GenericError::UnsupportedAscii(byte)) => Err(InjectionError::UnsupportedAscii(byte)),
        Err(GenericError::UnsupportedUnicode(ch)) => Err(InjectionError::UnsupportedUnicode(ch)),
        Err(GenericError::Unknown) => Err(InjectionError::Unknown),
    }
}

/// The keyboard of the host, with the lists of the requests made to it and
/// of the requests that it accepted.
pub struct Keyboard {
    context: Context,
    requests: Ghost<Seq<KeyEvent>>,
    accepted: Ghost<Seq<KeyEvent>>,
}

impl Keyboard {
    /// The key events that the keyboard was asked to inject, oldest first,
    /// accepted or not.
    pub closed spec fn requests(&self) -> Seq<KeyEvent> {
        self.requests@
    }

    /// The key events that the host accepted, oldest first.
    pub closed spec fn accepted(&self) -> Seq<KeyEvent> {
        self.accepted@
    }

    /// A keyboard over a context of `tfc`, with no request made yet.
    pub fn new(context: Context) -> (keyboard: Keyboard)
        ensures
            keyboard.requests() == Seq::<KeyEvent>::empty(),
            keyboard.accepted() == Seq::<KeyEvent>::empty(),
    {
        Keyboard { context, requests: Ghost(Seq::empty()), accepted: Ghost(Seq::empty()) }
    }

    /// Asks the host for its keyboard. Where the host gives it, no request
    /// has been made of it yet.
    pub fn open() -> (result: Result<Keyboard, InjectionError>)
        ensures
            result matches Ok(keyboard) ==> {
                &&& keyboard.requests() == Seq::<KeyEvent>::empty()
                &&& keyboard.accepted() == Seq::<KeyEvent>::empty()
            },
    {
        Keyboard::over(new_context())
    }

    /// The context of `tfc` that the keyboard holds.
    pub closed spec fn context(&self) -> Context {
        self.context
    }

    /// The keyboard over what the host answered when it was asked for a
    /// handle: where it gave one, a keyboard over that handle with no request
    /// made yet, and where it gave none, the cause that it gave.
    pub fn over(outcome: Result<Context, InjectionError>) -> (result: Result<
        Keyboard,
        InjectionError,
    >)
        ensures
            match outcome {
                Ok(context) => {
                    &&& result matches Ok(keyboard)
                    &&& keyboard.context() == context
                    &&& keyboard.requests() == Seq::<KeyEvent>::empty()
                    &&& keyboard.accepted() == Seq::<KeyEvent>::empty()
                },
                Err(cause) => result == Err::<Keyboard, InjectionError>(cause),
            },
    {
        match outcome {
            Ok(context) => Ok(
                Keyboard { context, requests: Ghost(Seq::empty()), accepted: Ghost(Seq::empty()) },
            ),
            Err(cause) => Err(cause),
        }
    }

    /// Asks the host to press or release one key.
    pub fn inject(&mut self, event: KeyEvent) -> (result: Result<(), InjectionError>)
        ensures
            final(self).requests() == old(self).requests().push(event),
            final(self).accepted() == if result is Ok {
                old(self).accepted().push(event)
            } else {
                old(self).accepted()
            },
    {
        let result = match event.direction {
            Direction::Down => key_down(&mut self.context, event.key),
            Direction::Up => key_up(&mut self.context, event.key),
        };
        self.requests = Ghost(self.requests@.push(event));
        self.accepted = Ghost(
            if result is Ok {
                self.accepted@.push(event)
            } else {
                self.accepted@
            },
        );
        result
    }

    /// Asks the host for the events of a list, in order, and stops at the
    /// first that it refuses: the events after that one are not requested.
    pub fn inject_all(&mut self, events: &Vec<KeyEvent>) -> (result: Result<(), Refusal>)
        ensures
            match result {
                Ok(()) => {
                    &&& final(self).requests() == old(self).requests() + events@
                    &&& final(self).accepted() == old(self).accepted() + events@
                },
                Err(refusal) => {
                    &&& refusal.position < events@.len()
                    &&& refusal.event == events@[refusal.position as int]
                    &&& final(self).requests() == old(self).requests() + events@.take(
                        refusal.position + 1,
                    )
                    &&& final(self).accepted() == old(self).accepted() + events@.take(
                        refusal.position as int,
                    )
                },
            },
    {
        let mut i: usize = 0;
        while i < events.len()
            invariant
                i <= events@.len(),
                self.requests() == old(self).requests() + events@.take(i as int),
                self.accepted() == old(self).accepted() + events@.take(i as int),
            decreases events@.len() - i,
        {
            let event = events[i];
            let result = self.inject(event);
            proof {
                assert(events@.take(i + 1) == events@.take(i as int).push(event));
            }
            match result {
                Ok(()) => {},
                Err(cause) => {
                    return Err(Refusal { position: i, event, cause });
                },
            }
            i += 1;
        }
        proof {
            assert(events@.take(events@.len() as int) == events@);
        }
        Ok(())
    }
}

} // verus!
