//! The tray icon: what it shows, what it signals, and how often registering it is
//! tried again.

use vstd::prelude::*;

verus! {

/// Bus name of the service that keeps the tray.
pub const SNI_WATCHER_SERVICE: &'static str = "org.kde.StatusNotifierWatcher";

/// Object path of the service that keeps the tray.
pub const SNI_WATCHER_OBJECT: &'static str = "/StatusNotifierWatcher";

/// Interface of the service that keeps the tray.
pub const SNI_WATCHER_INTERFACE: &'static str = "org.kde.StatusNotifierWatcher";

/// Object path of the tray icon.
pub const SNI_OBJECT: &'static str = "/StatusNotifierItem";

/// Object path of the tray icon's menu.
pub const MENU_OBJECT: &'static str = "/MenuBar";

/// The input mode that the tray icon shows.
#[derive(Debug, Clone, Copy, PartialEq, Eq, Structural)]
pub enum InputMode {
    Chinese,
    English,
}

/// An entry of the tray icon's menu.
#[derive(Debug, Clone, Copy, PartialEq, Eq, Structural)]
pub enum TrayAction {
    ToggleMode,
    Settings,
    Deploy,
    Exit,
}

// ── Registration ───────────────────────────────────────────────────────────

/// The longest wait between two attempts to register, in seconds.
pub const MAX_RETRY_SECONDS: u64 = 15;

/// How long registering waits before each attempt.
pub struct RetryDelay {
    next: u64,
}

/// The wait after a wait: twice as long, up to the longest.
pub open spec fn wait_after(wait: int) -> int {
    if 2 * wait <= MAX_RETRY_SECONDS {
        2 * wait
    } else {
        MAX_RETRY_SECONDS as int
    }
}

impl RetryDelay {
    /// The wait before the next attempt, in seconds.
    pub closed spec fn pending(self) -> int {
        self.next as int
    }

    /// Waits are bounded.
    #[verifier::type_invariant]
    spec fn bounded(self) -> bool {
        1 <= self.next <= MAX_RETRY_SECONDS
    }

    /// The waits start at one second.
    pub fn new() -> (delay: RetryDelay)
        ensures
            delay.pending() == 1,
    {
        RetryDelay { next: 1 }
    }

    /// The wait before the next attempt, in seconds; the one after it is longer.
    pub fn wait(&mut self) -> (seconds: u64)
        ensures
            seconds == old(self).pending(),
            1 <= seconds <= MAX_RETRY_SECONDS,
            final(self).pending() == wait_after(old(self).pending()),
    {
        proof {
            use_type_invariant(&*self);
        }
        let seconds: u64 = self.next;
        let doubled: u64 = seconds * 2;
        self.next = if doubled < MAX_RETRY_SECONDS {
            doubled
        } else {
            MAX_RETRY_SECONDS
        };
        seconds
    }
}

/// The wait before the attempt with a number, from zero.
pub open spec fn nth_wait(n: nat) -> int
    decreases n,
{
    if n == 0 {
        1
    } else {
        wait_after(nth_wait((n - 1) as nat))
    }
}

/// The waits double from one second on, up to the longest.
pub proof fn law_waits_double(n: nat)
    ensures
        nth_wait(n) == if vstd::arithmetic::power2::pow2(n) <= MAX_RETRY_SECONDS {
            vstd::arithmetic::power2::pow2(n) as int
        } else {
            MAX_RETRY_SECONDS as int
        },
    decreases n,
{
    if n == 0 {
        vstd::arithmetic::power2::lemma2_to64();
    } else {
        law_waits_double((n - 1) as nat);
        vstd::arithmetic::power2::lemma_pow2_unfold(n);
    }
}

// ── What the icon shows ────────────────────────────────────────────────────

/// A signal that the tray icon sends.
#[derive(Debug, Clone, Copy, PartialEq, Eq, Structural)]
pub enum TraySignal {
    NewIcon,
    NewToolTip,
    /// The icon is shown.
    Active,
    /// The icon is hidden.
    Passive,
}

impl TraySignal {
    /// The status that a signal announces, if any.
    pub fn status(self) -> (status: Option<&'static str>)
        ensures
            match status {
                Some(status) => (self == TraySignal::Active && status@ == "Active"@) || (self
                    == TraySignal::Passive && status@ == "Passive"@),
                None => self == TraySignal::NewIcon || self == TraySignal::NewToolTip,
            },
    {
        match self {
            TraySignal::Active => Some("Active"),
            TraySignal::Passive => Some("Passive"),
            TraySignal::NewIcon => None,
            TraySignal::NewToolTip => None,
        }
    }
}

/// What the tray icon shows.
#[derive(Debug, Clone, Copy, PartialEq, Eq)]
pub struct TrayManager {
    pub mode: InputMode,
    pub visible: bool,
    pub primary_color: (u8, u8, u8),
}

impl TrayManager {
    /// A tray icon that has just been registered is hidden.
    pub fn new(mode: InputMode, primary_color: (u8, u8, u8)) -> (tray: TrayManager)
        ensures
            tray == (TrayManager { mode, visible: false, primary_color }),
    {
        TrayManager { mode, visible: false, primary_color }
    }

    /// Shows an input mode. The result is what to signal.
    pub fn set_mode(&mut self, mode: InputMode) -> (signals: Vec<TraySignal>)
        ensures
            *final(self) == (TrayManager { mode, ..*old(self) }),
            signals@ == seq![TraySignal::NewIcon, TraySignal::NewToolTip],
    {
        self.mode = mode;
        let signals = vec![TraySignal::NewIcon, TraySignal::NewToolTip];
        assert(signals@ =~= seq![TraySignal::NewIcon, TraySignal::NewToolTip]);
        signals
    }

    /// Shows or hides the icon. Only a change is signalled, and the icon anew only
    /// where it comes into sight.
    pub fn set_visible(&mut self, visible: bool) -> (signals: Vec<TraySignal>)
        ensures
            *final(self) == (TrayManager { visible, ..*old(self) }),
            signals@ == if old(self).visible == visible {
                Seq::empty()
            } else if visible {
                seq![TraySignal::Active, TraySignal::NewIcon]
            } else {
                seq![TraySignal::Passive]
            },
    {
        let was_visible: bool = self.visible;
        self.visible = visible;
        let mut signals: Vec<TraySignal> = Vec::new();
        if was_visible != visible {
            if visible {
                signals.push(TraySignal::Active);
                signals.push(TraySignal::NewIcon);
            } else {
                signals.push(TraySignal::Passive);
            }
        }
        assert(signals@ =~= if was_visible == visible {
            Seq::empty()
        } else if visible {
            seq![TraySignal::Active, TraySignal::NewIcon]
        } else {
            seq![TraySignal::Passive]
        });
        signals
    }

    /// The input mode that the icon shows.
    pub fn get_mode(&self) -> (mode: InputMode)
        ensures
            mode == self.mode,
    {
        self.mode
    }

    /// Shows the icon in a colour. The result is what to signal.
    pub fn set_primary_color(&mut self, color: (u8, u8, u8)) -> (signals: Vec<TraySignal>)
        ensures
            *final(self) == (TrayManager { primary_color: color, ..*old(self) }),
            signals@ == seq![TraySignal::NewIcon],
    {
        self.primary_color = color;
        let signals = vec![TraySignal::NewIcon];
        assert(signals@ =~= seq![TraySignal::NewIcon]);
        signals
    }
}

} // verus!
