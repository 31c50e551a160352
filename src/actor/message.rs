use vstd::prelude::*;

verus! {

/// Messages raised by the runtime itself.
#[derive(Debug)]
pub enum SystemMessage {
    StringMessage(String),
}

/// Messages exchanged by user behaviors.
#[derive(Debug)]
pub enum UserMessage {
    StringMessage(String),
}

/// The payload carried by an envelope; the runtime moves it without looking inside.
#[derive(Debug)]
pub enum Message {
    System(SystemMessage),
    User(UserMessage),
}

} // verus!
