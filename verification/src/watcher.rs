//! Watching a directory: which changes call for a rescan, and when.
//!
//! Native change notifications are debounced: a burst of them becomes one
//! signal, sent once the burst has been quiet for [`DEBOUNCE_WINDOW_NANOS`].
//! The native watcher and the thread that polls it are I/O and stay with the
//! caller, who feeds a [`WatchDebounce`] and sends what it returns. Times
//! are instants of a monotonic clock in nanoseconds.

use vstd::prelude::*;

use crate::error::IoErrorKind;

verus! {

/// How long a burst of changes must be quiet before a signal is sent.
pub const DEBOUNCE_WINDOW_NANOS: u64 = 150_000_000;

/// How often the watching thread looks for a stop request.
pub const STOP_POLL_INTERVAL_NANOS: u64 = 25_000_000;

#[derive(Clone, Copy, Debug, PartialEq, Eq, Structural)]
pub enum WatchSignal {
    /// Something may have changed. Consumers must perform a complete rescan.
    RescanRequired,
    /// The native watcher reported an error. A complete rescan is still
    /// required.
    WatchFailed,
}

#[derive(Clone, Copy, Debug, PartialEq, Eq, Structural)]
pub enum WatchError {
    NotFound,
    PermissionDenied,
    NotDirectory,
    Io,
}

pub open spec fn watch_io_error(kind: IoErrorKind) -> WatchError {
    match kind {
        IoErrorKind::NotFound => WatchError::NotFound,
        IoErrorKind::PermissionDenied => WatchError::PermissionDenied,
        IoErrorKind::NotADirectory => WatchError::NotDirectory,
        _ => WatchError::Io,
    }
}

impl WatchError {
    /// How a failure of the operating system is reported.
    pub fn from_io_error(kind: IoErrorKind) -> (error: Self)
        ensures
            error == watch_io_error(kind),
    {
        match kind {
            IoErrorKind::NotFound => WatchError::NotFound,
            IoErrorKind::PermissionDenied => WatchError::PermissionDenied,
            IoErrorKind::NotADirectory => WatchError::NotDirectory,
            _ => WatchError::Io,
        }
    }

    /// A short description that names no path.
    pub fn message(&self) -> (text: &'static str)
        ensures
            text@ == watch_error_message(*self),
    {
        match self {
            WatchError::NotFound => "watch root was not found",
            WatchError::PermissionDenied => "watch root is not accessible",
            WatchError::NotDirectory => "watch root is not a directory",
            WatchError::Io => "directory watcher could not be started",
        }
    }
}

/// The description of a watch failure.
pub open spec fn watch_error_message(error: WatchError) -> Seq<char> {
    match error {
        WatchError::NotFound => "watch root was not found"@,
        WatchError::PermissionDenied => "watch root is not accessible"@,
        WatchError::NotDirectory => "watch root is not a directory"@,
        WatchError::Io => "directory watcher could not be started"@,
    }
}

/// Whether a root can be watched, given what reading its metadata gave:
/// whether it is a directory, or why it could not be read.
pub open spec fn root_check(metadata: Result<bool, IoErrorKind>) -> Result<(), WatchError> {
    match metadata {
        Ok(true) => Ok(()),
        Ok(false) => Err(WatchError::NotDirectory),
        Err(kind) => Err(watch_io_error(kind)),
    }
}

#[derive(Clone, Copy, Debug, Default)]
pub struct DirectoryWatcher;

impl DirectoryWatcher {
    /// Whether a root can be watched, given whether it is a directory or why
    /// its metadata could not be read.
    pub fn validate_root(&self, metadata: Result<bool, IoErrorKind>) -> (checked: Result<(), WatchError>)
        ensures
            checked == root_check(metadata),
    {
        match metadata {
            Ok(true) => Ok(()),
            Ok(false) => Err(WatchError::NotDirectory),
            Err(kind) => Err(WatchError::from_io_error(kind)),
        }
    }
}

/// `now` plus the debounce window, held at the end of the clock.
pub open spec fn debounce_deadline(now: u64) -> u64 {
    if now + DEBOUNCE_WINDOW_NANOS > u64::MAX {
        u64::MAX
    } else {
        (now + DEBOUNCE_WINDOW_NANOS) as u64
    }
}

/// The pending signal after another native notification at `now`: a
/// failure is never downgraded, and the quiet period starts again.
pub open spec fn merged(current: Option<(WatchSignal, u64)>, next: WatchSignal, now: u64) -> (WatchSignal, u64) {
    let failed = next == WatchSignal::WatchFailed || (current matches Some((signal, _)) && signal
        == WatchSignal::WatchFailed);
    (
        if failed {
            WatchSignal::WatchFailed
        } else {
            WatchSignal::RescanRequired
        },
        debounce_deadline(now),
    )
}

pub fn merge_pending(current: Option<(WatchSignal, u64)>, next: WatchSignal, now: u64) -> (pending: (
    WatchSignal,
    u64,
))
    ensures
        pending == merged(current, next, now),
{
    let failed = match next {
        WatchSignal::WatchFailed => true,
        WatchSignal::RescanRequired => match current {
            Some((WatchSignal::WatchFailed, _)) => true,
            _ => false,
        },
    };
    let signal = if failed {
        WatchSignal::WatchFailed
    } else {
        WatchSignal::RescanRequired
    };
    (signal, now.saturating_add(DEBOUNCE_WINDOW_NANOS))
}

/// The debounce state of one watch: the signal waiting to be sent, with
/// the instant it becomes due.
pub struct WatchDebounce {
    pending: Option<(WatchSignal, u64)>,
}

impl View for WatchDebounce {
    type V = Option<(WatchSignal, u64)>;

    closed spec fn view(&self) -> Option<(WatchSignal, u64)> {
        self.pending
    }
}

impl WatchDebounce {
    pub fn new() -> (debounce: Self)
        ensures
            debounce@ is None,
    {
        WatchDebounce { pending: None }
    }

    /// The native watcher reported a change (`Ok`) or an error (`Err`) at
    /// `now`.
    pub fn notify(&mut self, succeeded: bool, now: u64)
        ensures
            final(self)@ == Some(
                merged(
                    old(self)@,
                    if succeeded {
                        WatchSignal::RescanRequired
                    } else {
                        WatchSignal::WatchFailed
                    },
                    now,
                ),
            ),
    {
        let next = if succeeded {
            WatchSignal::RescanRequired
        } else {
            WatchSignal::WatchFailed
        };
        self.pending = Some(merge_pending(self.pending, next, now));
    }

    /// The signal to send at `now`, if one is due; it is then no longer
    /// pending.
    pub fn poll(&mut self, now: u64) -> (due: Option<WatchSignal>)
        ensures
            match old(self)@ {
                Some((signal, deadline)) => if now >= deadline {
                    due == Some(signal) && final(self)@ is None
                } else {
                    due is None && final(self)@ == old(self)@
                },
                None => due is None && final(self)@ is None,
            },
    {
        match self.pending {
            Some((signal, deadline)) => {
                if now >= deadline {
                    self.pending = None;
                    Some(signal)
                } else {
                    None
                }
            },
            None => None,
        }
    }
}

/// A failure is never lost to debouncing: once pending, it stays the
/// pending signal whatever notifications follow, and a signal is only sent
/// once its burst has been quiet for the debounce window.
pub proof fn law_failures_are_never_downgraded(
    current: Option<(WatchSignal, u64)>,
    next: WatchSignal,
    now: u64,
)
    ensures
        (current matches Some((signal, _)) && signal == WatchSignal::WatchFailed) ==> merged(current, next, now).0
            == WatchSignal::WatchFailed,
        next == WatchSignal::WatchFailed ==> merged(current, next, now).0 == WatchSignal::WatchFailed,
        now <= u64::MAX - DEBOUNCE_WINDOW_NANOS ==> merged(current, next, now).1 == now + DEBOUNCE_WINDOW_NANOS,
{
}

} // verus!
