//! The interface between the host and its plugins.
use vstd::prelude::*;

verus! {

/// An error that a plugin reports instead of a text update.
pub enum PluginError {
    /// Not critical: the host prints it to stderr and keeps the element's text.
    PrintToStdErr(String),
    /// Critical: the host prints it and shows it in place of the element's text.
    ShowInsteadOfText(String),
}

impl PluginError {
    /// The message that the plugin attached, whatever the variant.
    pub fn message(&self) -> (r: &str)
        ensures
            r@ == self.spec_message(),
    {
        match self {
            PluginError::PrintToStdErr(m) => m.as_str(),
            PluginError::ShowInsteadOfText(m) => m.as_str(),
        }
    }

    pub open spec fn spec_message(&self) -> Seq<char> {
        match self {
            PluginError::PrintToStdErr(m) => m@,
            PluginError::ShowInsteadOfText(m) => m@,
        }
    }
}

/// Communication between a plugin and the host broke down.
#[derive(Debug, Clone, Copy, PartialEq, Eq, Structural)]
pub struct PluginCommunicationError;

/// Sender that a plugin hands to the host, through which the host asks it to quit or refresh.
/// Implementations must not block indefinitely.
pub trait MsgMainToModule {
    /// Asks the plugin to clean up and return from its run function soon.
    fn send_quit(&self) -> Result<(), PluginCommunicationError>;

    /// Asks the plugin to send an updated text soon.
    fn send_refresh(&self) -> Result<(), PluginCommunicationError>;
}

/// Sender that the host hands to a plugin, through which the plugin sends its text updates.
pub trait MsgModuleToMain: Send {
    /// Sends a new text, or an error, for the element that this sender is bound to.
    fn send_update(&self, text: Result<String, PluginError>) -> Result<(), PluginCommunicationError>;
}

/// The main function of a plugin instance; it runs on a worker of its own.
pub trait SwayStatusModuleRunnable: Send {
    /// Runs until the plugin is asked to quit.
    fn run(&self);
}

/// The configuration of one plugin instance, from which its runnable is made.
pub trait SwayStatusModuleInstance {
    /// Makes the runnable and the sender through which the host reaches it.
    fn make_runnable<'p>(&'p self, to_main: Box<dyn MsgModuleToMain + 'p>) -> (
        Box<dyn SwayStatusModuleRunnable + 'p>,
        Box<dyn MsgMainToModule + 'p>,
    );
}

} // verus!
