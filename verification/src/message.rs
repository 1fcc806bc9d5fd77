//! The sections of a commit message.

use vstd::prelude::*;

verus! {

/// The sections that are read here.
#[derive(Debug, Clone, Copy, PartialEq, Eq)]
pub enum MessageSection {
    Title,
    PullRequest,
}

/// A commit message, section by section.
#[derive(Debug)]
pub struct MessageSectionsMap {
    pub title: Option<String>,
    pub pull_request: Option<String>,
    /// Every other section: its heading and its text.
    pub others: Vec<(String, String)>,
}

impl MessageSectionsMap {
    /// The text of a section, where the message has it.
    pub open spec fn section(self, section: MessageSection) -> Option<String> {
        match section {
            MessageSection::Title => self.title,
            MessageSection::PullRequest => self.pull_request,
        }
    }

    /// The text of a section, where the message has it.
    pub fn get(&self, section: MessageSection) -> (text: Option<&String>)
        ensures
            match text {
                Some(text) => self.section(section) == Some(*text),
                None => self.section(section) is None,
            },
    {
        match section {
            MessageSection::Title => self.title.as_ref(),
            MessageSection::PullRequest => self.pull_request.as_ref(),
        }
    }
}

/// The title and the pull request of a message are two sections of their own:
/// changing one changes neither the other nor any further section.
pub proof fn sections_are_apart(
    message: MessageSectionsMap,
    title: Option<String>,
    pull_request: Option<String>,
    others: Vec<(String, String)>,
)
    ensures
        (MessageSectionsMap { title, pull_request, others }).section(MessageSection::Title)
            == title,
        (MessageSectionsMap { title, pull_request, others }).section(MessageSection::PullRequest)
            == pull_request,
        (MessageSectionsMap { title, ..message }).section(MessageSection::PullRequest)
            == message.section(MessageSection::PullRequest),
        (MessageSectionsMap { pull_request, ..message }).section(MessageSection::Title)
            == message.section(MessageSection::Title),
{
}

} // verus!
