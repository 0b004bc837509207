//! What each operating-system signal asks of the main loop.
use vstd::prelude::*;
use crate::communication::InternalMessage;

verus! {

/// The signal numbers that the host listens to.
pub struct SignalNumbers {
    /// Asks for fresh text (`SIGUSR1`).
    pub refresh: i32,
    /// Asks for a restart of the core (`SIGHUP`).
    pub reload: i32,
    /// Termination signals (`SIGTERM`, `SIGINT`, `SIGPIPE`).
    pub terminate: Vec<i32>,
}

/// The request that the signal handler passes on for a signal, and whether it keeps
/// listening afterwards: only after a refresh; a reload or a termination ends it, so that
/// one cycle sees one reload at most. A signal that is not one of the three kinds is none of
/// the handler's business.
pub fn signal_action(signal: i32, numbers: &SignalNumbers) -> (r: Option<(InternalMessage, bool)>)
    ensures
        signal == numbers.refresh ==> r == Some((InternalMessage::Refresh, true)),
        signal != numbers.refresh && signal == numbers.reload ==> r == Some(
            (InternalMessage::Reload, false),
        ),
        signal != numbers.refresh && signal != numbers.reload ==> (r is Some
            <==> numbers.terminate@.contains(signal)),
        signal != numbers.refresh && signal != numbers.reload && numbers.terminate@.contains(signal)
            ==> r == Some((InternalMessage::Quit, false)),
{
    if signal == numbers.refresh {
        return Some((InternalMessage::Refresh, true));
    }
    if signal == numbers.reload {
        return Some((InternalMessage::Reload, false));
    }
    let mut i: usize = 0;
    while i < numbers.terminate.len()
        invariant
            i <= numbers.terminate.len(),
            signal != numbers.refresh,
            signal != numbers.reload,
            forall|j: int| 0 <= j < i ==> numbers.terminate@[j] != signal,
        decreases numbers.terminate.len() - i,
    {
        if numbers.terminate[i] == signal {
            return Some((InternalMessage::Quit, false));
        }
        i = i + 1;
    }
    None
}

} // verus!
