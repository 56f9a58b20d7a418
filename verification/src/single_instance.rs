//! Keeping a single running instance: the second start hands over to the
//! first one and quits.

use vstd::prelude::*;
use crate::text::chars_of;

verus! {

/// Name of the mutex that marks a running instance on Windows.
pub const MUTEX_NAME: &'static str = "neMAX_SingleInstance_Mutex";

/// Title of the main window that a second start looks for.
pub const WINDOW_TITLE: &'static str = "neMAX";

/// Path of the socket that marks a running instance on Linux.
pub const SOCKET_PATH: &'static str = "/tmp/nemax_single_instance.sock";

/// The UTF-16 code units of one character.
pub open spec fn utf16_units(c: char) -> Seq<u16> {
    let v = c as u32 as int;
    if v < 0x10000 {
        seq![v as u16]
    } else {
        let w = v - 0x10000;
        seq![(0xD800 + w / 0x400) as u16, (0xDC00 + w % 0x400) as u16]
    }
}

/// The UTF-16 code units of a string.
pub open spec fn utf16_of(s: Seq<char>) -> Seq<u16>
    decreases s.len(),
{
    if s.len() == 0 {
        seq![]
    } else {
        utf16_of(s.drop_last()) + utf16_units(s.last())
    }
}

/// A step that brings the running instance's window to the front.
#[derive(Debug, Clone, Copy, PartialEq, Eq, Structural)]
pub enum WindowCommand {
    /// Restore the minimized window.
    Restore,
    /// Show the window maximized.
    ShowMaximized,
    /// Make it the foreground window.
    SetForeground,
}

/// The steps that bring the running instance's window to the front.
pub open spec fn activation_spec(window_found: bool, minimized: bool) -> Seq<WindowCommand> {
    if !window_found {
        seq![]
    } else if minimized {
        seq![WindowCommand::Restore, WindowCommand::ShowMaximized, WindowCommand::SetForeground]
    } else {
        seq![WindowCommand::ShowMaximized, WindowCommand::SetForeground]
    }
}

/// `s` as a NUL-terminated UTF-16 string, as the Windows API takes it.
pub fn to_wide(s: &str) -> (w: Vec<u16>)
    ensures
        w@ == utf16_of(s@).push(0u16),
{
    let cs = chars_of(s);
    let mut w: Vec<u16> = Vec::new();
    let mut i: usize = 0;
    while i < cs.len()
        invariant
            cs@ == s@,
            i <= cs.len(),
            w@ == utf16_of(s@.take(i as int)),
        decreases cs.len() - i,
    {
        let c = cs[i];
        let v = c as u32;
        let ghost before = w@;
        if v < 0x10000 {
            w.push(v as u16);
        } else {
            let x = v - 0x10000;
            w.push((0xD800 + x / 0x400) as u16);
            w.push((0xDC00 + x % 0x400) as u16);
        }
        proof {
            assert(s@.take(i + 1).drop_last() =~= s@.take(i as int));
            assert(s@.take(i + 1).last() == c);
            assert(w@ =~= before + utf16_units(c));
        }
        i = i + 1;
    }
    assert(s@.take(cs.len() as int) =~= s@);
    w.push(0u16);
    w
}

/// Whether this start is the first instance: it is unless the mutex could be
/// created and already existed.  A start that could not create the mutex
/// runs as the first instance.
pub fn is_first_instance(mutex_created: bool, already_exists: bool) -> (first: bool)
    ensures
        first == (!mutex_created || !already_exists),
{
    !mutex_created || !already_exists
}

/// The steps that bring the running instance's window to the front, when it
/// was found; `minimized` tells whether it is minimized.
pub fn activation_commands(window_found: bool, minimized: bool) -> (v: Vec<WindowCommand>)
    ensures
        v@ == activation_spec(window_found, minimized),
{
    let mut v: Vec<WindowCommand> = Vec::new();
    if window_found {
        if minimized {
            v.push(WindowCommand::Restore);
        }
        v.push(WindowCommand::ShowMaximized);
        v.push(WindowCommand::SetForeground);
    }
    assert(v@ =~= activation_spec(window_found, minimized));
    v
}

/// What the socket check of a start has just found out.
#[derive(Debug, Clone, Copy, PartialEq, Eq, Structural)]
pub enum SocketEvent {
    /// Whether connecting to the instance socket worked.
    Connected(bool),
    /// Whether binding the instance socket worked.
    Bound(bool),
}

/// The next step of the socket check.
#[derive(Debug, Clone, Copy, PartialEq, Eq, Structural)]
pub enum SocketStep {
    /// An instance is running: signal it and stop this start.
    SignalRunningAndStop,
    /// Nobody answers: remove a socket left over by a crash and bind it.
    RemoveStaleAndBind,
    /// The socket is ours: listen on it and run as the first instance.
    ListenAsFirst,
}

/// The next step of the socket check after `e`.
pub open spec fn socket_step_spec(e: SocketEvent) -> SocketStep {
    match e {
        SocketEvent::Connected(true) => SocketStep::SignalRunningAndStop,
        SocketEvent::Connected(false) => SocketStep::RemoveStaleAndBind,
        SocketEvent::Bound(true) => SocketStep::ListenAsFirst,
        SocketEvent::Bound(false) => SocketStep::SignalRunningAndStop,
    }
}

/// The next step of the socket check: a running instance that answers stops
/// this start; otherwise the socket is bound, and the start runs as the first
/// instance exactly when binding works.
pub fn socket_step(e: SocketEvent) -> (s: SocketStep)
    ensures
        s == socket_step_spec(e),
{
    match e {
        SocketEvent::Connected(true) => SocketStep::SignalRunningAndStop,
        SocketEvent::Connected(false) => SocketStep::RemoveStaleAndBind,
        SocketEvent::Bound(true) => SocketStep::ListenAsFirst,
        SocketEvent::Bound(false) => SocketStep::SignalRunningAndStop,
    }
}

/// A start runs as the first instance only after it found no instance to
/// connect to and then bound the socket itself.
pub proof fn lemma_first_only_after_bind(e: SocketEvent)
    ensures
        socket_step_spec(e) == SocketStep::ListenAsFirst <==> e == SocketEvent::Bound(true),
        socket_step_spec(SocketEvent::Connected(true)) == SocketStep::SignalRunningAndStop,
{
}

/// The single-instance check of platforms that have none: every start runs.
pub fn ensure_single_instance() -> (first: bool)
    ensures
        first,
{
    true
}

/// A string of characters below U+10000 becomes one UTF-16 unit per
/// character, equal to the character's code.
pub proof fn lemma_utf16_basic_plane(s: Seq<char>)
    requires
        forall|i: int| 0 <= i < s.len() ==> (#[trigger] s[i] as u32) < 0x10000,
    ensures
        utf16_of(s).len() == s.len(),
        forall|i: int| 0 <= i < s.len() ==> utf16_of(s)[i] as u32 == #[trigger] s[i] as u32,
    decreases s.len(),
{
    if s.len() > 0 {
        let init = s.drop_last();
        assert forall|i: int| 0 <= i < init.len() implies (#[trigger] init[i] as u32) < 0x10000 by {
            assert(init[i] == s[i]);
        }
        lemma_utf16_basic_plane(init);
        assert forall|i: int| 0 <= i < s.len() implies utf16_of(s)[i] as u32 == #[trigger] s[i] as u32 by {
            if i < s.len() - 1 {
                assert(init[i] == s[i]);
                assert(utf16_of(s)[i] == utf16_of(init)[i]);
            }
        }
    }
}

/// A character above U+FFFF becomes a surrogate pair: a high surrogate
/// (D800-DBFF) then a low one (DC00-DFFF).
pub proof fn lemma_utf16_surrogates(c: char)
    requires
        (c as u32) >= 0x10000,
    ensures
        utf16_units(c).len() == 2,
        0xD800 <= utf16_units(c)[0] <= 0xDBFF,
        0xDC00 <= utf16_units(c)[1] <= 0xDFFF,
{
}

/// The running instance's window is brought to the front only when it was
/// found: restored first exactly when minimized, then shown maximized, then
/// made the foreground window.
pub proof fn lemma_activation_order(found: bool, minimized: bool)
    ensures
        !found ==> activation_spec(found, minimized).len() == 0,
        found ==> activation_spec(found, minimized).len() >= 2,
        found ==> activation_spec(found, minimized).last() == WindowCommand::SetForeground,
        found ==> activation_spec(found, minimized)[activation_spec(found, minimized).len() - 2]
            == WindowCommand::ShowMaximized,
        found ==> (activation_spec(found, minimized).contains(WindowCommand::Restore) <==> minimized),
{
    let v = activation_spec(found, minimized);
    if found && !minimized {
        assert(v[0] != WindowCommand::Restore && v[1] != WindowCommand::Restore);
    }
    if found && minimized {
        assert(v[0] == WindowCommand::Restore);
    }
}

} // verus!
