//! The main loop's decisions: what each inbox message does to the element texts, which
//! requests go to the plugins, and the line that is written.
use vstd::prelude::*;
use crate::communication::{InternalMessage, Message};
use crate::config::{ElementView, SwaystatusMainConfig, SwaystatusPluginConfig};
use crate::plugin::PluginError;

verus! {

/// Text shown for an element whose worker crashed.
pub const CRASH_TEXT: &'static str = "<plugin crashed>";

/// A request to one plugin's downstream sender.
#[derive(Debug, Clone, Copy, PartialEq, Eq, Structural)]
pub enum DownstreamCommand {
    Quit,
    Refresh,
}

/// A line for stderr, naming the element it is about.
pub enum Diagnostic {
    /// The element's plugin reported an error with this message.
    PluginReported { element_number: usize, message: String },
    /// The element's worker crashed.
    PluginCrashed { element_number: usize },
}

/// Where the loop stands.
#[derive(Debug, Clone, Copy, PartialEq, Eq, Structural)]
pub enum LoopState {
    Running,
    /// Quitting: drain the inbox, then return.
    Exiting,
    /// Quitting: drain the inbox, then start the core again.
    ExitingWithRestart,
}

/// What the core returns to its caller once the inbox is drained.
#[derive(Debug, Clone, Copy, PartialEq, Eq, Structural)]
pub enum LoopVerdict {
    Completed,
    Restart,
}

/// Why the loop cannot start.
#[derive(Debug, Clone, Copy, PartialEq, Eq, Structural)]
pub enum StartError {
    /// The configuration sets up no element: there is nothing to display.
    NoElements,
}

/// What handling one message asks the caller to do, in this order: send the commands,
/// print the diagnostic, write the line.
pub struct Reaction {
    pub commands: Vec<(usize, DownstreamCommand)>,
    pub diagnostic: Option<Diagnostic>,
    pub line: Option<String>,
}

pub open spec fn texts_view(v: Seq<String>) -> Seq<Seq<char>> {
    v.map_values(|s: String| s@)
}

pub open spec fn elements_view<C>(v: Seq<SwaystatusPluginConfig<C>>) -> Seq<ElementView<C>> {
    v.map_values(|e: SwaystatusPluginConfig<C>| e@)
}

/// The element texts after a message.
pub open spec fn texts_after(texts: Seq<Seq<char>>, msg: Message) -> Seq<Seq<char>> {
    match msg {
        Message::External { text: Ok(t), element_number } => texts.update(element_number as int, t@),
        Message::External { text: Err(PluginError::ShowInsteadOfText(t)), element_number } =>
            texts.update(element_number as int, t@),
        Message::ThreadCrash { element_number } => texts.update(
            element_number as int,
            CRASH_TEXT@,
        ),
        _ => texts,
    }
}

/// The loop state after a message.
pub open spec fn state_after(state: LoopState, msg: Message) -> LoopState {
    match msg {
        Message::Internal(InternalMessage::Reload) => LoopState::ExitingWithRestart,
        Message::Internal(InternalMessage::Quit) => if state == LoopState::Running {
            LoopState::Exiting
        } else {
            state
        },
        _ => state,
    }
}

/// Every sender in index order, each told once.
pub open spec fn command_to_all(n: nat, c: DownstreamCommand) -> Seq<(usize, DownstreamCommand)> {
    Seq::new(n, |i: int| (i as usize, c))
}

/// The requests that a message sends to `n` plugins.
pub open spec fn commands_for(msg: Message, n: nat) -> Seq<(usize, DownstreamCommand)> {
    match msg {
        Message::Internal(InternalMessage::Quit) => command_to_all(n, DownstreamCommand::Quit),
        Message::Internal(InternalMessage::Reload) => command_to_all(n, DownstreamCommand::Quit),
        Message::Internal(InternalMessage::Refresh) => command_to_all(n, DownstreamCommand::Refresh),
        _ => Seq::empty(),
    }
}

/// The diagnostic that a message produces: a report of the message an element's plugin sent
/// with an error, or a crash report.
pub open spec fn diagnostic_for(msg: Message) -> Option<Diagnostic> {
    match msg {
        Message::External { text: Err(PluginError::PrintToStdErr(m)), element_number } => Some(
            Diagnostic::PluginReported { element_number, message: m },
        ),
        Message::External { text: Err(PluginError::ShowInsteadOfText(m)), element_number } => Some(
            Diagnostic::PluginReported { element_number, message: m },
        ),
        Message::ThreadCrash { element_number } => Some(Diagnostic::PluginCrashed { element_number }),
        _ => None,
    }
}

/// The message changes what is displayed, so a line is written.
pub open spec fn renders(msg: Message) -> bool {
    match msg {
        Message::External { text: Err(PluginError::PrintToStdErr(_)), .. } => false,
        Message::Internal(_) => false,
        _ => true,
    }
}

/// One element as written: its framing around its text.
pub open spec fn segment<C>(text: Seq<char>, e: ElementView<C>) -> Seq<char> {
    e.before_text + text + e.after_text
}

/// The first `n` elements as written, joined by the separator.
pub open spec fn line_prefix<C>(
    texts: Seq<Seq<char>>,
    elements: Seq<ElementView<C>>,
    separator: Seq<char>,
    n: nat,
) -> Seq<char>
    decreases n,
{
    if n == 0 {
        Seq::empty()
    } else if n == 1 {
        segment(texts[0], elements[0])
    } else {
        line_prefix(texts, elements, separator, (n - 1) as nat) + separator + segment(
            texts[n - 1],
            elements[n - 1],
        )
    }
}

/// The whole line, without its line break.
pub open spec fn line_of<C>(
    texts: Seq<Seq<char>>,
    elements: Seq<ElementView<C>>,
    separator: Seq<char>,
) -> Seq<char> {
    line_prefix(texts, elements, separator, texts.len())
}

/// The line for the current texts: each element's `before_text`, text and `after_text`,
/// the elements joined by the separator.
pub fn render_line<C>(
    texts: &Vec<String>,
    settings: &SwaystatusMainConfig,
    elements: &Vec<SwaystatusPluginConfig<C>>,
) -> (r: String)
    requires
        texts.len() == elements.len(),
    ensures
        r@ == line_of(texts_view(texts@), elements_view(elements@), settings.separator@),
{
    let ghost tv = texts_view(texts@);
    let ghost ev = elements_view(elements@);
    let ghost sep = settings.separator@;
    let mut line = String::new();
    let mut i: usize = 0;
    while i < texts.len()
        invariant
            i <= texts.len() == elements.len(),
            tv == texts_view(texts@),
            ev == elements_view(elements@),
            sep == settings.separator@,
            line@ == line_prefix(tv, ev, sep, i as nat),
        decreases texts.len() - i,
    {
        let ghost before_line = line@;
        if i > 0 {
            line.append(settings.separator.as_str());
        }
        let general = elements[i].get_non_plugin_settings();
        line.append(general.before_text.as_str());
        line.append(texts[i].as_str());
        line.append(general.after_text.as_str());
        proof {
            let seg = segment(tv[i as int], ev[i as int]);
            if i == 0 {
                assert(line@ =~= seg);
            } else {
                assert(line@ =~= before_line + sep + seg);
            }
        }
        i = i + 1;
    }
    line
}

/// The requests that an internal message sends to `n` plugins: `Quit` to each for a quit or
/// a reload, `Refresh` to each for a refresh, in index order.
pub fn forward_to_all_plugins(n: usize, message: InternalMessage) -> (r: Vec<(usize, DownstreamCommand)>)
    ensures
        r@ == commands_for(Message::Internal(message), n as nat),
{
    let command = match message {
        InternalMessage::Refresh => DownstreamCommand::Refresh,
        _ => DownstreamCommand::Quit,
    };
    let mut r: Vec<(usize, DownstreamCommand)> = Vec::new();
    let mut i: usize = 0;
    while i < n
        invariant
            i <= n,
            r@ =~= command_to_all(i as nat, command),
        decreases n - i,
    {
        r.push((i, command));
        i = i + 1;
    }
    assert(r@ =~= command_to_all(n as nat, command));
    r
}

/// Takes in an update from an element: a text or a `ShowInsteadOfText` error replaces the
/// element's text; an error is reported in a diagnostic naming the element.
pub fn handle_message_from_element(
    texts: &mut Vec<String>,
    element_number: usize,
    message: Result<String, PluginError>,
) -> (r: Option<Diagnostic>)
    requires
        element_number < old(texts).len(),
    ensures
        texts_view(final(texts)@) == texts_after(
            texts_view(old(texts)@),
            Message::External { text: message, element_number },
        ),
        r == diagnostic_for(Message::External { text: message, element_number }),
{
    let ghost old_view = texts_view(texts@);
    match message {
        Ok(t) => {
            texts.set(element_number, t);
            assert(texts_view(texts@) =~= old_view.update(element_number as int, t@));
            None
        },
        Err(PluginError::PrintToStdErr(m)) => {
            Some(Diagnostic::PluginReported { element_number, message: m })
        },
        Err(PluginError::ShowInsteadOfText(m)) => {
            let shown = m.clone();
            texts.set(element_number, shown);
            assert(texts_view(texts@) =~= old_view.update(element_number as int, m@));
            Some(Diagnostic::PluginReported { element_number, message: m })
        },
    }
}

/// Puts the crash text in the element's place and reports the crash.
pub fn handle_crash_from_element(texts: &mut Vec<String>, element_number: usize) -> (r: Diagnostic)
    requires
        element_number < old(texts).len(),
    ensures
        texts_view(final(texts)@) == texts_after(
            texts_view(old(texts)@),
            Message::ThreadCrash { element_number },
        ),
        r == (Diagnostic::PluginCrashed { element_number }),
{
    let ghost old_view = texts_view(texts@);
    texts.set(element_number, String::from_str(CRASH_TEXT));
    assert(texts_view(texts@) =~= old_view.update(element_number as int, CRASH_TEXT@));
    Diagnostic::PluginCrashed { element_number }
}

/// The main loop's state: the latest text of each element and where the loop stands.
pub struct CoreLoop {
    texts: Vec<String>,
    state: LoopState,
}

impl CoreLoop {
    /// The latest text of each element, in element order.
    pub closed spec fn texts(&self) -> Seq<Seq<char>> {
        texts_view(self.texts@)
    }

    pub closed spec fn state(&self) -> LoopState {
        self.state
    }

    /// A loop for `n` elements, each with empty text; refused when `n` is zero.
    pub fn start(n: usize) -> (r: Result<CoreLoop, StartError>)
        ensures
            n == 0 <==> r is Err,
            r matches Err(e) ==> e == StartError::NoElements,
            r matches Ok(c) ==> c.texts() == Seq::new(n as nat, |i: int| Seq::<char>::empty())
                && c.state() == LoopState::Running,
    {
        if n == 0 {
            return Err(StartError::NoElements);
        }
        let mut texts: Vec<String> = Vec::new();
        let mut i: usize = 0;
        while i < n
            invariant
                i <= n,
                texts@.len() == i,
                texts_view(texts@) =~= Seq::new(i as nat, |j: int| Seq::<char>::empty()),
            decreases n - i,
        {
            let ghost before = texts@;
            let blank = String::new();
            texts.push(blank);
            assert(texts@ == before.push(blank));
            assert(texts_view(texts@)[i as int] == blank@);
            assert(texts_view(texts@) =~= texts_view(before).push(blank@));
            assert(texts_view(texts@) =~= Seq::new((i + 1) as nat, |j: int| Seq::<char>::empty()));
            i = i + 1;
        }
        Ok(CoreLoop { texts, state: LoopState::Running })
    }

    /// The latest texts, in element order.
    pub fn texts_now(&self) -> (r: &Vec<String>)
        ensures
            texts_view(r@) == self.texts(),
    {
        &self.texts
    }

    /// Handles one inbox message. Quit and reload send `Quit` to every plugin and end the
    /// loop, a reload with a restart; refresh sends `Refresh` to every plugin. An element
    /// update or crash changes that element's text as `texts_after` says and writes a line;
    /// an error that is only to be printed writes none.
    pub fn handle_message<C>(
        &mut self,
        msg: Message,
        settings: &SwaystatusMainConfig,
        elements: &Vec<SwaystatusPluginConfig<C>>,
    ) -> (r: Reaction)
        requires
            old(self).texts().len() == elements.len(),
            msg.fits(elements.len() as nat),
        ensures
            final(self).texts() == texts_after(old(self).texts(), msg),
            final(self).state() == state_after(old(self).state(), msg),
            r.commands@ == commands_for(msg, elements.len() as nat),
            r.line is Some <==> renders(msg),
            r.line matches Some(l) ==> l@ == line_of(
                final(self).texts(),
                elements_view(elements@),
                settings.separator@,
            ),
            r.diagnostic == diagnostic_for(msg),
    {
        let n = self.texts.len();
        assert(texts_view(self.texts@).len() == self.texts@.len());
        match msg {
            Message::Internal(i) => {
                match i {
                    InternalMessage::Reload => {
                        self.state = LoopState::ExitingWithRestart;
                    },
                    InternalMessage::Quit => {
                        if self.state == LoopState::Running {
                            self.state = LoopState::Exiting;
                        }
                    },
                    InternalMessage::Refresh => {},
                }
                let commands = forward_to_all_plugins(n, i);
                Reaction { commands, diagnostic: None, line: None }
            },
            Message::External { text, element_number } => {
                let shown = match &text {
                    Err(PluginError::PrintToStdErr(_)) => false,
                    _ => true,
                };
                let diagnostic = handle_message_from_element(&mut self.texts, element_number, text);
                assert(texts_view(self.texts@).len() == self.texts@.len());
                let line = if shown {
                    Some(render_line(&self.texts, settings, elements))
                } else {
                    None
                };
                Reaction { commands: Vec::new(), diagnostic, line }
            },
            Message::ThreadCrash { element_number } => {
                let d = handle_crash_from_element(&mut self.texts, element_number);
                assert(texts_view(self.texts@).len() == self.texts@.len());
                let line = render_line(&self.texts, settings, elements);
                Reaction { commands: Vec::new(), diagnostic: Some(d), line: Some(line) }
            },
        }
    }

    /// The inbox disconnected: every worker is gone, so the loop ends.
    pub fn on_disconnect(&mut self)
        ensures
            final(self).texts() == old(self).texts(),
            old(self).state() == LoopState::Running ==> final(self).state() == LoopState::Exiting,
            old(self).state() != LoopState::Running ==> final(self).state() == old(self).state(),
    {
        if self.state == LoopState::Running {
            self.state = LoopState::Exiting;
        }
    }

    /// Whether the loop stops taking new work: after a quit, a reload or a disconnect.
    pub fn is_exiting(&self) -> (r: bool)
        ensures
            r == (self.state() != LoopState::Running),
    {
        self.state != LoopState::Running
    }

    /// What the caller does once the inbox is drained: start again after a reload.
    pub fn verdict(&self) -> (r: LoopVerdict)
        ensures
            r == LoopVerdict::Restart <==> self.state() == LoopState::ExitingWithRestart,
    {
        if self.state == LoopState::ExitingWithRestart {
            LoopVerdict::Restart
        } else {
            LoopVerdict::Completed
        }
    }
}


/// Exactly one entry of `commands` is addressed to element `i`, and it carries `c`.
pub open spec fn told_once(commands: Seq<(usize, DownstreamCommand)>, i: int, c: DownstreamCommand) -> bool {
    exists|k: int|
        0 <= k < commands.len() && commands[k] == (i as usize, c) && forall|k2: int|
            0 <= k2 < commands.len() && k2 != k ==> commands[k2].0 != i as usize
}

/// After a quit or a reload, every one of the `n` downstream senders is sent `Quit` exactly
/// once, and nothing else.
pub proof fn lemma_quit_reaches_every_sender_once(n: nat, m: InternalMessage)
    requires
        n <= usize::MAX,
        m != InternalMessage::Refresh,
    ensures
        forall|i: int| 0 <= i < n ==> told_once(commands_for(Message::Internal(m), n), i, DownstreamCommand::Quit),
        commands_for(Message::Internal(m), n).len() == n,
{
    lemma_command_to_all_once(n, DownstreamCommand::Quit);
}

/// After a refresh, every one of the `n` downstream senders is sent `Refresh` exactly once,
/// and nothing else.
pub proof fn lemma_refresh_reaches_every_sender_once(n: nat)
    requires
        n <= usize::MAX,
    ensures
        forall|i: int| 0 <= i < n ==> told_once(commands_for(Message::Internal(InternalMessage::Refresh), n), i, DownstreamCommand::Refresh),
        commands_for(Message::Internal(InternalMessage::Refresh), n).len() == n,
{
    lemma_command_to_all_once(n, DownstreamCommand::Refresh);
}

proof fn lemma_command_to_all_once(n: nat, c: DownstreamCommand)
    requires
        n <= usize::MAX,
    ensures
        forall|i: int| 0 <= i < n ==> told_once(command_to_all(n, c), i, c),
{
    let s = command_to_all(n, c);
    assert forall|i: int| 0 <= i < n implies told_once(s, i, c) by {
        assert(s[i] == (i as usize, c));
        assert forall|k2: int| 0 <= k2 < s.len() && k2 != i implies s[k2].0 != i as usize by {
            assert(s[k2].0 == k2 as usize);
        }
    }
}

/// After a crash of element `i`, its text is the crash text, the other texts are kept,
/// and one line is written.
pub proof fn lemma_crash_shows_crash_text(texts: Seq<Seq<char>>, i: usize)
    requires
        i < texts.len(),
    ensures
        texts_after(texts, Message::ThreadCrash { element_number: i })[i as int] == CRASH_TEXT@,
        forall|j: int| 0 <= j < texts.len() && j != i ==> #[trigger] texts_after(texts, Message::ThreadCrash { element_number: i })[j] == texts[j],
        renders(Message::ThreadCrash { element_number: i }),
{
}

/// The element texts after a run of messages.
pub open spec fn texts_after_all(texts: Seq<Seq<char>>, msgs: Seq<Message>) -> Seq<Seq<char>>
    decreases msgs.len(),
{
    if msgs.len() == 0 {
        texts
    } else {
        texts_after_all(texts_after(texts, msgs[0]), msgs.skip(1))
    }
}

/// The texts that element `i` shows, one after each message addressed to it.
pub open spec fn shown_history(texts: Seq<Seq<char>>, msgs: Seq<Message>, i: usize) -> Seq<Seq<char>>
    decreases msgs.len(),
{
    if msgs.len() == 0 {
        Seq::empty()
    } else {
        let next = texts_after(texts, msgs[0]);
        let here = if msgs[0].element() == Some(i) {
            seq![next[i as int]]
        } else {
            Seq::empty()
        };
        here + shown_history(next, msgs.skip(1), i)
    }
}

/// The texts that element `i` sent, in the order sent.
pub open spec fn sent_texts(msgs: Seq<Message>, i: usize) -> Seq<Seq<char>>
    decreases msgs.len(),
{
    if msgs.len() == 0 {
        Seq::empty()
    } else {
        let here = match msgs[0] {
            Message::External { text: Ok(t), element_number } => if element_number == i {
                seq![t@]
            } else {
                Seq::empty()
            },
            _ => Seq::empty(),
        };
        here + sent_texts(msgs.skip(1), i)
    }
}

/// Every message addressed to element `i` is a text update.
pub open spec fn only_texts_for(msgs: Seq<Message>, i: usize) -> bool {
    forall|k: int|
        0 <= k < msgs.len() && #[trigger] msgs[k].element() == Some(i) ==> msgs[k] matches Message::External {
            text: Ok(_),
            ..
        }
}

/// The texts an element shows follow the texts it sent, one for one and in order, when all
/// it sent were texts; whatever other elements send in between.
pub proof fn lemma_shown_follows_sent(texts: Seq<Seq<char>>, msgs: Seq<Message>, i: usize)
    requires
        i < texts.len(),
        forall|k: int| 0 <= k < msgs.len() ==> (#[trigger] msgs[k]).fits(texts.len()),
        only_texts_for(msgs, i),
    ensures
        shown_history(texts, msgs, i) == sent_texts(msgs, i),
    decreases msgs.len(),
{
    if msgs.len() > 0 {
        let next = texts_after(texts, msgs[0]);
        let rest = msgs.skip(1);
        assert(msgs[0].fits(texts.len()));
        assert(next.len() == texts.len());
        assert forall|k: int| 0 <= k < rest.len() implies (#[trigger] rest[k]).fits(next.len()) by {
            assert(rest[k] == msgs[k + 1]);
            assert(msgs[k + 1].fits(texts.len()));
        }
        assert(only_texts_for(rest, i)) by {
            assert forall|k: int| 0 <= k < rest.len() && #[trigger] rest[k].element() == Some(i) implies rest[k] matches Message::External {
                text: Ok(_),
                ..
            } by {
                assert(rest[k] == msgs[k + 1]);
            }
        }
        lemma_shown_follows_sent(next, rest, i);
        if msgs[0].element() == Some(i) {
            assert(msgs[0] matches Message::External { text: Ok(_), .. });
        }
    }
}

} // verus!
