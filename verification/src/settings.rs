//! User settings of the client and how they change.

use vstd::prelude::*;
use crate::ua_gen::{generate_user_agent, is_generated_user_agent};

verus! {

/// The user's settings.  They are stored as JSON by the caller after each
/// change.
#[derive(Debug, Clone)]
pub struct Settings {
    /// The user agent the web view presents.
    pub user_agent: String,
    /// Whether the web page may register service workers.
    pub allow_service_workers: bool,
    /// Whether closing the window hides it to the tray.
    pub close_to_tray: bool,
    /// Whether the window starts hidden.
    pub start_minimized: bool,
    /// Whether the client starts when the user logs in.
    pub auto_start: bool,
}

/// The value of a setting that is on unless stored otherwise.
pub fn default_true() -> (b: bool)
    ensures
        b,
{
    true
}

impl Settings {
    /// Settings as a fresh install has them: a generated user agent, service
    /// workers off, closing to the tray, starting visible, no autostart.
    pub open spec fn is_fresh(self) -> bool {
        &&& is_generated_user_agent(self.user_agent@)
        &&& !self.allow_service_workers
        &&& self.close_to_tray
        &&& !self.start_minimized
        &&& !self.auto_start
    }

    /// The settings to run with, from what could be read from storage:
    /// the stored settings when there are any, otherwise fresh settings.  The
    /// flag tells whether the result has to be written back, which is the
    /// case exactly when fresh settings were made.
    pub fn from_stored(stored: Option<Settings>) -> (r: (Settings, bool))
        ensures
            match stored {
                Some(s) => r.0 == s && !r.1,
                None => r.0.is_fresh() && r.1,
            },
    {
        match stored {
            Some(s) => (s, false),
            None => (Settings::default(), true),
        }
    }

    /// Replaces the user agent by a newly generated one, and returns it.
    pub fn randomize_ua(&mut self) -> (ua: String)
        ensures
            is_generated_user_agent(ua@),
            final(self).user_agent@ == ua@,
            final(self).allow_service_workers == old(self).allow_service_workers,
            final(self).close_to_tray == old(self).close_to_tray,
            final(self).start_minimized == old(self).start_minimized,
            final(self).auto_start == old(self).auto_start,
    {
        let ua = generate_user_agent();
        self.user_agent = ua.clone();
        ua
    }

    /// Turns service workers on or off.
    pub fn set_service_workers(&mut self, enabled: bool)
        ensures
            *final(self) == (Settings { allow_service_workers: enabled, ..*old(self) }),
    {
        self.allow_service_workers = enabled;
    }

    /// Sets whether closing the window hides it to the tray.
    pub fn set_close_to_tray(&mut self, val: bool)
        ensures
            *final(self) == (Settings { close_to_tray: val, ..*old(self) }),
    {
        self.close_to_tray = val;
    }

    /// Sets whether the client starts when the user logs in.
    pub fn set_auto_start(&mut self, val: bool)
        ensures
            *final(self) == (Settings { auto_start: val, ..*old(self) }),
    {
        self.auto_start = val;
    }
}

impl Default for Settings {
    fn default() -> (s: Self)
        ensures
            s.is_fresh(),
    {
        Settings {
            user_agent: generate_user_agent(),
            allow_service_workers: false,
            close_to_tray: default_true(),
            start_minimized: false,
            auto_start: false,
        }
    }
}

/// Fresh settings: a generated user agent, service workers off, closing to
/// the tray, starting visible and no autostart.
pub proof fn lemma_fresh_settings(s: Settings)
    requires
        s.is_fresh(),
    ensures
        !s.allow_service_workers,
        s.close_to_tray,
        !s.start_minimized,
        !s.auto_start,
        is_generated_user_agent(s.user_agent@),
{
}

} // verus!
