use desktop_gpui::hold_to_quit::{HoldToQuit, QuitAction, QuitEvent};

fn key_down(secondary: bool, key: &str) -> QuitEvent {
    QuitEvent::KeyDown { secondary, key: key.to_string() }
}

fn key_up(key: &str) -> QuitEvent {
    QuitEvent::KeyUp { key: key.to_string() }
}

#[test]
fn hold_quits() {
    let mut h = HoldToQuit::new();
    assert_eq!(h.handle(&key_down(true, "q")), QuitAction::StartCountdown);
    assert_eq!(h.handle(&QuitEvent::TimerElapsed), QuitAction::Quit);
    let mut c = HoldToQuit::new();
    assert_eq!(c.handle(&key_down(true, "c")), QuitAction::StartCountdown);
    assert_eq!(c.handle(&QuitEvent::TimerElapsed), QuitAction::Quit);
}

#[test]
fn key_repeat_keeps_one_countdown() {
    let mut h = HoldToQuit::new();
    assert_eq!(h.handle(&key_down(true, "q")), QuitAction::StartCountdown);
    assert_eq!(h.handle(&key_down(true, "q")), QuitAction::Ignore);
    assert_eq!(h.handle(&key_down(true, "q")), QuitAction::Ignore);
    assert!(h.counting);
    assert_eq!(h.handle(&QuitEvent::TimerElapsed), QuitAction::Quit);
}

#[test]
fn release_cancels() {
    let mut h = HoldToQuit::new();
    h.handle(&key_down(true, "q"));
    assert_eq!(h.handle(&key_up("q")), QuitAction::CancelCountdown);
    assert_eq!(h.handle(&QuitEvent::TimerElapsed), QuitAction::Ignore);

    let mut m = HoldToQuit::new();
    m.handle(&key_down(true, "q"));
    assert_eq!(m.handle(&QuitEvent::ModifiersChanged { secondary: false }), QuitAction::CancelCountdown);
    assert_eq!(m.handle(&QuitEvent::TimerElapsed), QuitAction::Ignore);
}

#[test]
fn quit_only_after_countdown() {
    let mut h = HoldToQuit::new();
    assert_eq!(h.handle(&QuitEvent::TimerElapsed), QuitAction::Ignore);
    assert_eq!(h.handle(&key_down(false, "q")), QuitAction::Ignore);
    assert_eq!(h.handle(&key_down(true, "w")), QuitAction::Ignore);
    assert_eq!(h.handle(&key_down(true, "Q")), QuitAction::Ignore);
    assert!(!h.counting);
}

#[test]
fn other_events_leave_the_countdown_running() {
    let mut h = HoldToQuit::new();
    h.handle(&key_down(true, "q"));
    assert_eq!(h.handle(&key_up("x")), QuitAction::Ignore);
    assert_eq!(h.handle(&QuitEvent::ModifiersChanged { secondary: true }), QuitAction::Ignore);
    assert_eq!(h.handle(&key_down(true, "x")), QuitAction::Ignore);
    assert!(h.counting);
    assert_eq!(h.handle(&QuitEvent::TimerElapsed), QuitAction::Quit);
    assert_eq!(h.handle(&key_up("q")), QuitAction::CancelCountdown);
    assert_eq!(h.handle(&key_up("q")), QuitAction::Ignore);
}
