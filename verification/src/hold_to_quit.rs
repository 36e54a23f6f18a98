//! "Hold to quit": keep Cmd-Q / Ctrl-C held for one second to exit; letting go
//! of the key or of the modifier earlier cancels.
use vstd::prelude::*;
use crate::text::str_eq;

verus! {

/// What the application does in answer to an event.
#[derive(Clone, Copy, Debug, PartialEq, Eq, Structural)]
pub enum QuitAction {
    /// Nothing.
    Ignore,
    /// Start the one-second countdown.
    StartCountdown,
    /// Drop the running countdown.
    CancelCountdown,
    /// Quit the application.
    Quit,
}

/// The input the view sees.
#[derive(Clone, Debug)]
pub enum QuitEvent {
    /// A key went down; `secondary` is the platform's command modifier.
    KeyDown { secondary: bool, key: String },
    /// A key went up.
    KeyUp { key: String },
    /// The modifiers changed; `secondary` tells whether it is still held.
    ModifiersChanged { secondary: bool },
    /// The countdown's second has passed.
    TimerElapsed,
}

/// The keys of the gesture: `q` and `c`.
pub open spec fn is_quit_key(key: Seq<char>) -> bool {
    key == seq!['q'] || key == seq!['c']
}

/// The next state (whether a countdown runs) and the action for an event.
pub open spec fn quit_step(counting: bool, e: QuitEvent) -> (bool, QuitAction) {
    match e {
        QuitEvent::KeyDown { secondary, key } => if !secondary || !is_quit_key(key@) {
            (counting, QuitAction::Ignore)
        } else if counting {
            (true, QuitAction::Ignore)
        } else {
            (true, QuitAction::StartCountdown)
        },
        QuitEvent::KeyUp { key } => if !is_quit_key(key@) {
            (counting, QuitAction::Ignore)
        } else if counting {
            (false, QuitAction::CancelCountdown)
        } else {
            (false, QuitAction::Ignore)
        },
        QuitEvent::ModifiersChanged { secondary } => if secondary {
            (counting, QuitAction::Ignore)
        } else if counting {
            (false, QuitAction::CancelCountdown)
        } else {
            (false, QuitAction::Ignore)
        },
        QuitEvent::TimerElapsed => if counting {
            (counting, QuitAction::Quit)
        } else {
            (false, QuitAction::Ignore)
        },
    }
}

fn is_quit_key_exec(key: &str) -> (r: bool)
    ensures
        r == is_quit_key(key@),
{
    proof {
        reveal_strlit("q");
        reveal_strlit("c");
        assert("q"@ =~= seq!['q']);
        assert("c"@ =~= seq!['c']);
    }
    str_eq(key, "q") || str_eq(key, "c")
}

/// State of the hold-to-quit gesture: whether a countdown runs.
pub struct HoldToQuit {
    pub counting: bool,
}

impl HoldToQuit {
    /// No countdown running.
    pub fn new() -> (r: Self)
        ensures
            !r.counting,
    {
        HoldToQuit { counting: false }
    }

    /// Handles one event.
    pub fn handle(&mut self, e: &QuitEvent) -> (r: QuitAction)
        ensures
            (final(self).counting, r) == quit_step(old(self).counting, *e),
    {
        match e {
            QuitEvent::KeyDown { secondary, key } => {
                if !*secondary || !is_quit_key_exec(key.as_str()) {
                    QuitAction::Ignore
                } else if self.counting {
                    QuitAction::Ignore
                } else {
                    self.counting = true;
                    QuitAction::StartCountdown
                }
            },
            QuitEvent::KeyUp { key } => {
                if !is_quit_key_exec(key.as_str()) {
                    QuitAction::Ignore
                } else if self.counting {
                    self.counting = false;
                    QuitAction::CancelCountdown
                } else {
                    QuitAction::Ignore
                }
            },
            QuitEvent::ModifiersChanged { secondary } => {
                if *secondary {
                    QuitAction::Ignore
                } else if self.counting {
                    self.counting = false;
                    QuitAction::CancelCountdown
                } else {
                    QuitAction::Ignore
                }
            },
            QuitEvent::TimerElapsed => {
                if self.counting {
                    QuitAction::Quit
                } else {
                    QuitAction::Ignore
                }
            },
        }
    }
}

/// The application quits only while a countdown runs, and only when its
/// second has passed.
pub proof fn law_quit_only_after_countdown(counting: bool, e: QuitEvent)
    ensures
        quit_step(counting, e).1 == QuitAction::Quit <==> counting && e is TimerElapsed,
{
}

/// Holding the key (the OS repeating key-down) never starts a second
/// countdown.
pub proof fn law_key_repeat_keeps_one_countdown(e: QuitEvent)
    requires
        e is KeyDown,
    ensures
        quit_step(true, e) == (true, QuitAction::Ignore),
{
}

/// Pressing the gesture and keeping it held for the second quits.
pub proof fn law_hold_quits(key: String)
    requires
        is_quit_key(key@),
    ensures
        quit_step(false, QuitEvent::KeyDown { secondary: true, key }) == (true, QuitAction::StartCountdown),
        quit_step(true, QuitEvent::TimerElapsed) == (true, QuitAction::Quit),
{
}

/// Releasing the key or the modifier during the countdown cancels it, and the
/// second passing afterwards does nothing.
pub proof fn law_release_cancels(e: QuitEvent)
    requires
        (e matches QuitEvent::KeyUp { key } && is_quit_key(key@)) || (e matches QuitEvent::ModifiersChanged {
            secondary,
        } && !secondary),
    ensures
        quit_step(true, e) == (false, QuitAction::CancelCountdown),
        quit_step(quit_step(true, e).0, QuitEvent::TimerElapsed).1 == QuitAction::Ignore,
{
}

} // verus!
