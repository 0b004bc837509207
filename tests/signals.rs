use swaystatus::communication::InternalMessage;
use swaystatus::signalhandler::{signal_action, SignalNumbers};

fn numbers() -> SignalNumbers {
    SignalNumbers { refresh: 10, reload: 1, terminate: vec![15, 2, 13] }
}

#[test]
fn refresh_signal_keeps_listening() {
    assert_eq!(signal_action(10, &numbers()), Some((InternalMessage::Refresh, true)));
}

#[test]
fn reload_signal_ends_handler() {
    assert_eq!(signal_action(1, &numbers()), Some((InternalMessage::Reload, false)));
}

#[test]
fn termination_signals_quit() {
    for s in [15, 2, 13] {
        assert_eq!(signal_action(s, &numbers()), Some((InternalMessage::Quit, false)));
    }
    assert_eq!(signal_action(28, &numbers()), None);
}
