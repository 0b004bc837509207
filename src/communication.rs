//! Messages that reach the main loop.
use vstd::prelude::*;
use crate::plugin::PluginError;

verus! {

/// Requests from the signal handler.
#[derive(Debug, Clone, Copy, PartialEq, Eq, Structural)]
pub enum InternalMessage {
    /// Exit gracefully.
    Quit,
    /// Ask every element for fresh text.
    Refresh,
    /// Exit gracefully, then start the whole core again.
    Reload,
}

/// One entry of the main loop's inbox.
pub enum Message {
    Internal(InternalMessage),
    /// An update that an element's plugin sent.
    External { text: Result<String, PluginError>, element_number: usize },
    /// The worker of an element unwound.
    ThreadCrash { element_number: usize },
}

impl Message {
    /// The element that the message is about, if any.
    pub open spec fn element(&self) -> Option<usize> {
        match self {
            Message::Internal(_) => None,
            Message::External { element_number, .. } => Some(*element_number),
            Message::ThreadCrash { element_number } => Some(*element_number),
        }
    }

    /// The element that the message is about, if any.
    pub fn element_index(&self) -> (r: Option<usize>)
        ensures
            r == self.element(),
    {
        match self {
            Message::Internal(_) => None,
            Message::External { element_number, .. } => Some(*element_number),
            Message::ThreadCrash { element_number } => Some(*element_number),
        }
    }

    /// The message can be handled by a loop that displays `n` elements.
    pub open spec fn fits(&self, n: nat) -> bool {
        self.element() matches Some(i) ==> i < n
    }
}

} // verus!
