//! What is told when something goes wrong.

use vstd::prelude::*;

use crate::text::texts;

verus! {

/// What went wrong, in as many messages as there is to tell.
#[derive(Debug)]
pub struct SprError {
    pub messages: Vec<String>,
}

impl View for SprError {
    type V = Seq<Seq<char>>;

    open spec fn view(&self) -> Seq<Seq<char>> {
        texts(self.messages@)
    }
}

impl SprError {
    /// An error with one message.
    pub fn new(message: String) -> (error: SprError)
        ensures
            error@ == seq![message@],
    {
        let mut messages: Vec<String> = Vec::new();
        messages.push(message);
        let error = SprError { messages };
        assert(error@ =~= seq![message@]);
        error
    }

    /// An error about which everything has been told already.
    pub fn empty() -> (error: SprError)
        ensures
            error@ == Seq::<Seq<char>>::empty(),
    {
        let error = SprError { messages: Vec::new() };
        assert(error@ =~= Seq::<Seq<char>>::empty());
        error
    }

    /// The error with a further message: what was being done.
    pub fn context(self, message: String) -> (error: SprError)
        ensures
            error@ == self@.push(message@),
    {
        let mut messages = self.messages;
        messages.push(message);
        let error = SprError { messages };
        assert(error@ =~= self@.push(message@));
        error
    }
}

} // verus!
