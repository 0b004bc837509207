use swaystatus::communication::{InternalMessage, Message};
use swaystatus::config::{
    SwaystatusConfig, SwaystatusElementNonPluginOptions, SwaystatusMainConfig,
    SwaystatusPluginConfig,
};
use swaystatus::main_loop::{
    forward_to_all_plugins, handle_crash_from_element, handle_message_from_element, render_line,
    CoreLoop, Diagnostic, DownstreamCommand, LoopVerdict, StartError, CRASH_TEXT,
};
use swaystatus::plugin::PluginError;

fn element(name: &str, before: &str, after: &str) -> SwaystatusPluginConfig<()> {
    SwaystatusPluginConfig::new(
        String::from(name),
        (),
        SwaystatusElementNonPluginOptions {
            before_text: String::from(before),
            after_text: String::from(after),
        },
    )
}

fn settings(separator: &str) -> SwaystatusMainConfig {
    SwaystatusMainConfig { separator: String::from(separator) }
}

fn update(i: usize, t: &str) -> Message {
    Message::External { text: Ok(String::from(t)), element_number: i }
}

fn line_of(r: &swaystatus::main_loop::Reaction) -> Option<String> {
    r.line.clone()
}

#[test]
fn empty_element_list_does_not_start() {
    let config: SwaystatusConfig<()> = SwaystatusConfig {
        settings: Some(settings(", ")),
        elements: None,
    };
    let (elements, main) = config.into_parts();
    assert_eq!(elements.len(), 0);
    assert_eq!(main.separator, ", ");
    assert!(matches!(CoreLoop::start(elements.len()), Err(StartError::NoElements)));
}

#[test]
fn two_elements_lines_follow_updates() {
    let elements = vec![element("X", "", ""), element("Y", "", "")];
    let s = settings(" | ");
    let mut core = CoreLoop::start(2).ok().unwrap();
    let r1 = core.handle_message(update(0, "A"), &s, &elements);
    assert_eq!(line_of(&r1), Some(String::from("A | ")));
    let r2 = core.handle_message(update(1, "1"), &s, &elements);
    assert_eq!(line_of(&r2), Some(String::from("A | 1")));
    let r3 = core.handle_message(update(0, "B"), &s, &elements);
    assert_eq!(line_of(&r3), Some(String::from("B | 1")));
    assert!(r3.commands.is_empty());
    assert!(r3.diagnostic.is_none());
}

#[test]
fn framing_surrounds_text() {
    let elements = vec![element("X", "[", "]")];
    let texts = vec![String::from("hi")];
    assert_eq!(render_line(&texts, &settings(", "), &elements), "[hi]");
}

#[test]
fn framing_kept_for_element_without_update() {
    let elements = vec![element("X", "<", ">"), element("Y", "(", ")")];
    let texts = vec![String::new(), String::from("up")];
    assert_eq!(render_line(&texts, &settings("|"), &elements), "<>|(up)");
}

#[test]
fn show_instead_of_text_replaces_slot() {
    let elements = vec![element("X", "", ""), element("Y", "", "")];
    let s = settings(", ");
    let mut core = CoreLoop::start(2).ok().unwrap();
    core.handle_message(update(0, "before"), &s, &elements);
    let r = core.handle_message(
        Message::External {
            text: Err(PluginError::ShowInsteadOfText(String::from("oops"))),
            element_number: 1,
        },
        &s,
        &elements,
    );
    assert_eq!(core.texts_now()[1], "oops");
    assert_eq!(line_of(&r), Some(String::from("before, oops")));
    match r.diagnostic {
        Some(Diagnostic::PluginReported { element_number, message }) => {
            assert_eq!(element_number, 1);
            assert_eq!(message, "oops");
        }
        _ => panic!("expected one report"),
    }
}

#[test]
fn print_to_stderr_keeps_slot() {
    let elements = vec![element("X", "", "")];
    let s = settings(", ");
    let mut core = CoreLoop::start(1).ok().unwrap();
    core.handle_message(update(0, "kept"), &s, &elements);
    let r = core.handle_message(
        Message::External {
            text: Err(PluginError::PrintToStdErr(String::from("note"))),
            element_number: 0,
        },
        &s,
        &elements,
    );
    assert_eq!(core.texts_now()[0], "kept");
    assert!(r.line.is_none());
    assert!(matches!(r.diagnostic, Some(Diagnostic::PluginReported { element_number: 0, .. })));
}

#[test]
fn crash_shows_sentinel_and_others_continue() {
    let elements = vec![element("X", "", ""), element("Y", "", "")];
    let s = settings(" ");
    let mut core = CoreLoop::start(2).ok().unwrap();
    core.handle_message(update(1, "a"), &s, &elements);
    let r = core.handle_message(Message::ThreadCrash { element_number: 0 }, &s, &elements);
    assert_eq!(core.texts_now()[0], "<plugin crashed>");
    assert_eq!(CRASH_TEXT, "<plugin crashed>");
    assert_eq!(line_of(&r), Some(String::from("<plugin crashed> a")));
    assert!(matches!(r.diagnostic, Some(Diagnostic::PluginCrashed { element_number: 0 })));
    let r2 = core.handle_message(update(1, "b"), &s, &elements);
    assert_eq!(line_of(&r2), Some(String::from("<plugin crashed> b")));
}

#[test]
fn reload_quits_every_plugin_and_restarts() {
    let elements = vec![element("X", "", ""), element("Y", "", ""), element("Z", "", "")];
    let s = settings(", ");
    let mut core = CoreLoop::start(3).ok().unwrap();
    assert!(!core.is_exiting());
    let r = core.handle_message(Message::Internal(InternalMessage::Reload), &s, &elements);
    assert_eq!(
        r.commands,
        vec![
            (0, DownstreamCommand::Quit),
            (1, DownstreamCommand::Quit),
            (2, DownstreamCommand::Quit)
        ]
    );
    assert!(r.line.is_none());
    assert!(core.is_exiting());
    core.on_disconnect();
    assert_eq!(core.verdict(), LoopVerdict::Restart);
}

#[test]
fn quit_sends_one_quit_to_each_sender() {
    let elements = vec![element("X", "", ""), element("Y", "", "")];
    let s = settings(", ");
    let mut core = CoreLoop::start(2).ok().unwrap();
    let r = core.handle_message(Message::Internal(InternalMessage::Quit), &s, &elements);
    for i in 0..2usize {
        assert_eq!(r.commands.iter().filter(|c| c.0 == i).count(), 1);
    }
    assert!(r.commands.iter().all(|c| c.1 == DownstreamCommand::Quit));
    assert!(core.is_exiting());
    assert_eq!(core.verdict(), LoopVerdict::Completed);
}

#[test]
fn refresh_sends_one_refresh_to_each_sender() {
    let r = forward_to_all_plugins(4, InternalMessage::Refresh);
    assert_eq!(r.len(), 4);
    for (k, c) in r.iter().enumerate() {
        assert_eq!(*c, (k, DownstreamCommand::Refresh));
    }
    assert!(forward_to_all_plugins(0, InternalMessage::Quit).is_empty());
}

#[test]
fn refresh_keeps_loop_running() {
    let elements = vec![element("X", "", "")];
    let mut core = CoreLoop::start(1).ok().unwrap();
    let r = core.handle_message(Message::Internal(InternalMessage::Refresh), &settings(","), &elements);
    assert_eq!(r.commands, vec![(0, DownstreamCommand::Refresh)]);
    assert!(!core.is_exiting());
}

#[test]
fn disconnect_completes() {
    let mut core = CoreLoop::start(1).ok().unwrap();
    core.on_disconnect();
    assert!(core.is_exiting());
    assert_eq!(core.verdict(), LoopVerdict::Completed);
}

#[test]
fn slot_values_follow_sent_texts_in_order() {
    let elements = vec![element("X", "", ""), element("Y", "", "")];
    let s = settings(",");
    let mut core = CoreLoop::start(2).ok().unwrap();
    let sent = ["one", "two", "three"];
    let mut seen = Vec::new();
    for (k, t) in sent.iter().enumerate() {
        core.handle_message(update(1, &format!("other{}", k)), &s, &elements);
        core.handle_message(update(0, t), &s, &elements);
        seen.push(core.texts_now()[0].clone());
    }
    assert_eq!(seen, vec!["one", "two", "three"]);
}

#[test]
fn element_handlers_update_texts() {
    let mut texts = vec![String::new(), String::new()];
    assert!(handle_message_from_element(&mut texts, 1, Ok(String::from("t"))).is_none());
    assert_eq!(texts, vec![String::new(), String::from("t")]);
    let d = handle_crash_from_element(&mut texts, 0);
    assert!(matches!(d, Diagnostic::PluginCrashed { element_number: 0 }));
    assert_eq!(texts[0], "<plugin crashed>");
}
