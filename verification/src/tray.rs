//! The decisions of the Windows tray icon, which keeps a `serve` process running in
//! the background.
//!
//! The process is a child, so that killing it is safe: it only injects. Whether it
//! should run is remembered apart from whether it does, so that the watchdog brings
//! back one that has died and leaves alone one that was stopped.

use vstd::prelude::*;
use vstd::string::*;

verus! {

pub const WM_DESTROY: u32 = 0x0002;

pub const WM_COMMAND: u32 = 0x0111;

pub const WM_TIMER: u32 = 0x0113;

pub const WM_LBUTTONUP: u32 = 0x0202;

pub const WM_RBUTTONUP: u32 = 0x0205;

/// The icon was clicked: the first message above those that Windows reserves, and one.
pub const WM_TRAY: u32 = 0x8001;

pub const TRAY_UID: u32 = 1;

/// The menu entry that starts or stops the process.
pub const ID_TOGGLE: u32 = 1;

/// The menu entry that opens the log.
pub const ID_LOG: u32 = 2;

/// The menu entry that ends the program.
pub const ID_QUIT: u32 = 3;

/// The time between two looks of the watchdog, in milliseconds.
pub const WATCHDOG_MILLIS: u32 = 5000;

/// The room for a tooltip, in UTF-16 units with the null at the end.
pub const TIP_LEN: usize = 128;

/// What the system says of the child process.
#[derive(Debug, Clone, Copy, PartialEq, Eq, Structural)]
pub enum Probe {
    /// There is none.
    Absent,
    /// It has not ended.
    Alive,
    /// It has ended, or nothing can be learned of it.
    Ended,
}

/// What the tray does.
#[derive(Debug, Clone, Copy, PartialEq, Eq, Structural)]
pub enum TrayAction {
    /// Start the child process.
    Spawn,
    /// Kill the child process, and wait for its end.
    Kill,
    AddIcon,
    /// Show in the tooltip whether the child process runs.
    UpdateTip,
    RemoveIcon,
    /// Show the menu, with an entry to stop the process or to start it.
    ShowMenu { stop: bool },
    OpenLog,
    DestroyWindow,
    /// End the message loop.
    Quit,
}

/// The child process runs.
pub open spec fn runs(probe: Probe) -> bool {
    probe == Probe::Alive
}

/// Whether the child process runs.
pub fn is_running(probe: Probe) -> (r: bool)
    ensures
        r == runs(probe),
{
    match probe {
        Probe::Alive => true,
        _ => false,
    }
}

/// What it takes to have the child process running.
pub open spec fn ensured(probe: Probe) -> Seq<TrayAction> {
    if runs(probe) {
        Seq::empty()
    } else {
        seq![TrayAction::Spawn]
    }
}

/// What it takes to have no child process.
pub open spec fn ended(probe: Probe) -> Seq<TrayAction> {
    if probe == Probe::Absent {
        Seq::empty()
    } else {
        seq![TrayAction::Kill]
    }
}

/// What it takes to have the child process running.
pub fn ensure_running(probe: Probe) -> (r: Vec<TrayAction>)
    ensures
        r@ == ensured(probe),
{
    let mut out: Vec<TrayAction> = Vec::new();
    if !is_running(probe) {
        out.push(TrayAction::Spawn);
    }
    assert(out@ =~= ensured(probe));
    out
}

/// The state of the tray.
#[derive(Debug, Clone, Copy, PartialEq, Eq, Structural)]
pub struct Tray {
    /// The process should run.
    pub desired: bool,
}

/// What is done about a message, and whether the process should run after it. `None`
/// if the message is left to the system.
pub open spec fn reaction(
    desired: bool,
    msg: u32,
    wparam: u32,
    lparam: u32,
    taskbar_created: u32,
    probe: Probe,
) -> Option<(bool, Seq<TrayAction>)> {
    if taskbar_created != 0 && msg == taskbar_created {
        Some((desired, seq![TrayAction::AddIcon, TrayAction::UpdateTip]))
    } else if msg == WM_TRAY {
        let mouse = lparam % 0x1_0000;
        if mouse == WM_RBUTTONUP || mouse == WM_LBUTTONUP {
            Some((desired, seq![TrayAction::ShowMenu { stop: desired }]))
        } else {
            Some((desired, Seq::empty()))
        }
    } else if msg == WM_COMMAND {
        let id = wparam % 0x1_0000;
        if id == ID_TOGGLE {
            if desired {
                Some((false, ended(probe).push(TrayAction::UpdateTip)))
            } else {
                Some((true, ensured(probe).push(TrayAction::UpdateTip)))
            }
        } else if id == ID_LOG {
            Some((desired, seq![TrayAction::OpenLog]))
        } else if id == ID_QUIT {
            Some((desired, seq![TrayAction::DestroyWindow]))
        } else {
            Some((desired, Seq::empty()))
        }
    } else if msg == WM_TIMER {
        if desired && !runs(probe) {
            Some((desired, seq![TrayAction::Spawn, TrayAction::UpdateTip]))
        } else {
            Some((desired, Seq::empty()))
        }
    } else if msg == WM_DESTROY {
        Some((desired, seq![TrayAction::RemoveIcon, TrayAction::Quit]))
    } else {
        None
    }
}

impl Tray {
    /// The process is not to run yet.
    pub fn new() -> (r: Tray)
        ensures
            !r.desired,
    {
        Tray { desired: false }
    }

    /// What is done when the program starts: the icon, and the process without being
    /// asked for it.
    pub fn start(&mut self, probe: Probe) -> (r: Vec<TrayAction>)
        ensures
            final(self).desired,
            r@ == seq![TrayAction::AddIcon] + ensured(probe) + seq![TrayAction::UpdateTip],
    {
        let mut out: Vec<TrayAction> = Vec::new();
        out.push(TrayAction::AddIcon);
        let mut more = self.start_serve(probe);
        out.append(&mut more);
        out.push(TrayAction::UpdateTip);
        assert(out@ =~= seq![TrayAction::AddIcon] + ensured(probe) + seq![TrayAction::UpdateTip]);
        out
    }

    /// The process is to run from now on.
    pub fn start_serve(&mut self, probe: Probe) -> (r: Vec<TrayAction>)
        ensures
            final(self).desired,
            r@ == ensured(probe),
    {
        self.desired = true;
        ensure_running(probe)
    }

    /// The process is not to run any more.
    pub fn stop_serve(&mut self, probe: Probe) -> (r: Vec<TrayAction>)
        ensures
            !final(self).desired,
            r@ == ended(probe),
    {
        self.desired = false;
        let mut out: Vec<TrayAction> = Vec::new();
        match probe {
            Probe::Absent => {},
            _ => {
                out.push(TrayAction::Kill);
            },
        }
        assert(out@ =~= ended(probe));
        out
    }

    /// A message has come in. `taskbar_created` is the number of the message that the
    /// taskbar sends when it is new and has lost all icons, or 0. `None` leaves the
    /// message to the system.
    pub fn on_message(
        &mut self,
        msg: u32,
        wparam: u32,
        lparam: u32,
        taskbar_created: u32,
        probe: Probe,
    ) -> (r: Option<Vec<TrayAction>>)
        ensures
            match reaction(old(self).desired, msg, wparam, lparam, taskbar_created, probe) {
                Some((desired, actions)) => {
                    &&& r matches Some(v) && v@ == actions
                    &&& final(self).desired == desired
                },
                None => r is None && *final(self) == *old(self),
            },
    {
        let ghost expected = reaction(
            old(self).desired,
            msg,
            wparam,
            lparam,
            taskbar_created,
            probe,
        );
        let mut out: Vec<TrayAction> = Vec::new();
        if taskbar_created != 0 && msg == taskbar_created {
            out.push(TrayAction::AddIcon);
            out.push(TrayAction::UpdateTip);
        } else if msg == WM_TRAY {
            let mouse: u32 = lparam % 0x1_0000;
            if mouse == WM_RBUTTONUP || mouse == WM_LBUTTONUP {
                out.push(TrayAction::ShowMenu { stop: self.desired });
            }
        } else if msg == WM_COMMAND {
            let id: u32 = wparam % 0x1_0000;
            if id == ID_TOGGLE {
                let mut more = if self.desired {
                    self.stop_serve(probe)
                } else {
                    self.start_serve(probe)
                };
                out.append(&mut more);
                out.push(TrayAction::UpdateTip);
            } else if id == ID_LOG {
                out.push(TrayAction::OpenLog);
            } else if id == ID_QUIT {
                out.push(TrayAction::DestroyWindow);
            }
        } else if msg == WM_TIMER {
            if self.desired && !is_running(probe) {
                let mut more = ensure_running(probe);
                out.append(&mut more);
                out.push(TrayAction::UpdateTip);
            }
        } else if msg == WM_DESTROY {
            out.push(TrayAction::RemoveIcon);
            out.push(TrayAction::Quit);
        } else {
            return None;
        }
        assert(expected matches Some((_, actions)) && out@ =~= actions);
        Some(out)
    }
}

/// The process is started by the watchdog exactly if it should run and does not: one
/// that was stopped stays stopped, and one that has died comes back.
pub proof fn watchdog_follows_the_wish(
    desired: bool,
    wparam: u32,
    lparam: u32,
    taskbar_created: u32,
    probe: Probe,
)
    requires
        taskbar_created != WM_TIMER,
    ensures
        reaction(desired, WM_TIMER, wparam, lparam, taskbar_created, probe) matches Some((d, acts))
            && d == desired && (acts.contains(TrayAction::Spawn) <==> desired && !runs(probe)),
{
    let acts = seq![TrayAction::Spawn, TrayAction::UpdateTip];
    assert(acts[0] == TrayAction::Spawn);
}

/// Only the menu changes whether the process should run, and it changes it each time.
pub proof fn only_the_menu_changes_the_wish(
    desired: bool,
    msg: u32,
    wparam: u32,
    lparam: u32,
    taskbar_created: u32,
    probe: Probe,
)
    ensures
        reaction(desired, msg, wparam, lparam, taskbar_created, probe) matches Some((d, _)) ==> (d
            != desired <==> msg == WM_COMMAND && wparam % 0x1_0000 == ID_TOGGLE && !(
        taskbar_created != 0 && msg == taskbar_created)),
{
}

/// A taskbar that has lost all icons gets this one back, whatever the state.
pub proof fn icon_comes_back(
    desired: bool,
    wparam: u32,
    lparam: u32,
    taskbar_created: u32,
    probe: Probe,
)
    requires
        taskbar_created != 0,
    ensures
        reaction(desired, taskbar_created, wparam, lparam, taskbar_created, probe) matches Some(
            (d, acts),
        ) && d == desired && acts.contains(TrayAction::AddIcon),
{
    let acts = seq![TrayAction::AddIcon, TrayAction::UpdateTip];
    assert(acts[0] == TrayAction::AddIcon);
}

/// Where to listen unless told otherwise.
pub open spec fn default_bind() -> Seq<char> {
    "0.0.0.0:7777"@
}

/// The arguments that the child process is started with.
pub fn serve_args(bind: Option<String>, log: Option<String>) -> (r: Vec<String>)
    ensures
        ({
            let bound = match bind {
                Some(b) => b@,
                None => default_bind(),
            };
            &&& r@.len() == (if log is Some {
                5int
            } else {
                3int
            })
            &&& r@[0]@ == "serve"@
            &&& r@[1]@ == "--bind"@
            &&& r@[2]@ == bound
            &&& log matches Some(l) ==> r@[3]@ == "--log-file"@ && r@[4]@ == l@
        }),
{
    let mut out: Vec<String> = Vec::new();
    out.push(String::from_str("serve"));
    out.push(String::from_str("--bind"));
    match bind {
        Some(b) => out.push(b),
        None => out.push(String::from_str("0.0.0.0:7777")),
    }
    if let Some(l) = log {
        out.push(String::from_str("--log-file"));
        out.push(l);
    }
    out
}

/// The UTF-16 units of a character: one, or a surrogate pair.
pub open spec fn units(c: char) -> Seq<u16> {
    let n = c as nat;
    if n < 0x1_0000 {
        seq![n as u16]
    } else {
        let m = (n - 0x1_0000) as nat;
        seq![(0xD800 + m / 0x400) as u16, (0xDC00 + m % 0x400) as u16]
    }
}

/// A text in UTF-16.
pub open spec fn utf16(s: Seq<char>) -> Seq<u16>
    decreases s.len(),
{
    if s.len() == 0 {
        Seq::empty()
    } else {
        utf16(s.drop_last()) + units(s.last())
    }
}

fn encode(s: &str) -> (r: Vec<u16>)
    ensures
        r@ == utf16(s@),
{
    let mut out: Vec<u16> = Vec::new();
    let n: usize = s.unicode_len();
    let mut i: usize = 0;
    assert(s@.take(0) =~= Seq::empty());
    while i < n
        invariant
            i <= n == s@.len(),
            out@ == utf16(s@.take(i as int)),
        decreases n - i,
    {
        let c: u32 = s.get_char(i) as u32;
        if c < 0x1_0000 {
            out.push(c as u16);
        } else {
            let m: u32 = c - 0x1_0000;
            out.push((0xD800 + m / 0x400) as u16);
            out.push((0xDC00 + m % 0x400) as u16);
        }
        assert(s@.take(i + 1).drop_last() =~= s@.take(i as int));
        i = i + 1;
        assert(out@ =~= utf16(s@.take(i as int)));
    }
    assert(s@.take(i as int) =~= s@);
    out
}

/// A text in UTF-16 with a null behind it.
pub fn wide(s: &str) -> (r: Vec<u16>)
    ensures
        r@ == utf16(s@).push(0),
{
    let mut out = encode(s);
    out.push(0);
    out
}

/// A text as a tooltip: as much of it as there is room for, with a null behind it.
pub open spec fn tip_units(s: Seq<char>) -> Seq<u16> {
    let all = utf16(s);
    if all.len() < TIP_LEN {
        all.push(0)
    } else {
        all.take(TIP_LEN - 1).push(0)
    }
}

/// A text as a tooltip: as much of it as there is room for, with a null behind it.
pub fn set_tip(s: &str) -> (r: Vec<u16>)
    ensures
        r@ == tip_units(s@),
        0 < r@.len() <= TIP_LEN,
{
    let mut out = encode(s);
    if out.len() > TIP_LEN - 1 {
        out.truncate(TIP_LEN - 1);
        assert(out@ =~= utf16(s@).take(TIP_LEN - 1));
    }
    out.push(0);
    out
}

/// A click on the icon with the left or the right button shows the menu, with the entry
/// that undoes what is wished for; nothing else that the mouse does to it shows anything.
pub proof fn clicks_show_the_menu(
    desired: bool,
    wparam: u32,
    lparam: u32,
    taskbar_created: u32,
    probe: Probe,
)
    requires
        taskbar_created != 0x8001,
    ensures
        reaction(desired, 0x8001, wparam, lparam, taskbar_created, probe) matches Some((d, acts))
            && d == desired && (if lparam % 0x1_0000 == 0x202 || lparam % 0x1_0000 == 0x205 {
            acts == seq![TrayAction::ShowMenu { stop: desired }]
        } else {
            acts.len() == 0
        }),
{
}

/// The menu's first entry turns the wish around: the process is killed, if there is one
/// at all, or started, if it does not run. The second opens the log and the third ends
/// the program; neither touches the process.
pub proof fn menu_entries(
    desired: bool,
    wparam: u32,
    lparam: u32,
    taskbar_created: u32,
    probe: Probe,
)
    requires
        taskbar_created != 0x111,
    ensures
        ({
            let id = wparam % 0x1_0000;
            reaction(desired, 0x111, wparam, lparam, taskbar_created, probe) matches Some((d, acts))
                && {
                &&& id == 1 ==> {
                    &&& d == !desired
                    &&& acts.len() > 0 && acts.last() == TrayAction::UpdateTip
                    &&& desired && probe is Absent ==> acts.len() == 1
                    &&& desired && !(probe is Absent) ==> acts.len() == 2 && acts[0]
                        == TrayAction::Kill
                    &&& !desired && probe is Alive ==> acts.len() == 1
                    &&& !desired && !(probe is Alive) ==> acts.len() == 2 && acts[0]
                        == TrayAction::Spawn
                }
                &&& id != 1 ==> d == desired
                &&& id == 2 ==> acts == seq![TrayAction::OpenLog]
                &&& id == 3 ==> acts == seq![TrayAction::DestroyWindow]
                &&& id == 0 || id > 3 ==> acts.len() == 0
            }
        }),
{
}

/// The watchdog starts a process that should run and does not, and then shows that it
/// does; otherwise it does nothing.
pub proof fn watchdog_starts_or_waits(
    desired: bool,
    wparam: u32,
    lparam: u32,
    taskbar_created: u32,
    probe: Probe,
)
    requires
        taskbar_created != 0x113,
    ensures
        reaction(desired, 0x113, wparam, lparam, taskbar_created, probe) matches Some((d, acts))
            && d == desired && (if desired && !(probe is Alive) {
            acts == seq![TrayAction::Spawn, TrayAction::UpdateTip]
        } else {
            acts.len() == 0
        }),
{
}

/// The end of the window takes the icon away and ends the program; the taskbar's message
/// brings the icon back and its tooltip. What is none of the tray's messages is left to
/// the system.
pub proof fn other_messages(
    desired: bool,
    msg: u32,
    wparam: u32,
    lparam: u32,
    taskbar_created: u32,
    probe: Probe,
)
    ensures
        ({
            let r = reaction(desired, msg, wparam, lparam, taskbar_created, probe);
            let renewed = taskbar_created != 0 && msg == taskbar_created;
            &&& renewed ==> (r matches Some((d, acts)) && d == desired && acts == seq![
                TrayAction::AddIcon,
                TrayAction::UpdateTip,
            ])
            &&& msg == 2 && !renewed ==> (r matches Some((d, acts)) && d == desired && acts == seq![
                TrayAction::RemoveIcon,
                TrayAction::Quit,
            ])
            &&& r is None <==> !renewed && msg != 0x8001 && msg != 0x111 && msg != 0x113 && msg != 2
        }),
{
}

/// To have the process running, it is started exactly if it does not run; to have none,
/// it is killed exactly if there is one.
pub proof fn no_more_than_it_takes(probe: Probe)
    ensures
        probe is Alive ==> ensured(probe).len() == 0,
        !(probe is Alive) ==> ensured(probe) == seq![TrayAction::Spawn],
        probe is Absent ==> ended(probe).len() == 0,
        !(probe is Absent) ==> ended(probe) == seq![TrayAction::Kill],
        runs(probe) <==> probe is Alive,
{
}

/// Where to listen unless told otherwise: on every address, at port 7777.
pub proof fn default_address()
    ensures
        default_bind() == seq!['0', '.', '0', '.', '0', '.', '0', ':', '7', '7', '7', '7'],
{
    reveal_strlit("0.0.0.0:7777");
    assert(default_bind() =~= seq!['0', '.', '0', '.', '0', '.', '0', ':', '7', '7', '7', '7']);
}

/// A character is one unit of its own value or, beyond sixteen bits, a high and a low
/// surrogate with ten bits each of what is beyond.
pub proof fn units_give_the_character(c: char)
    ensures
        (c as u32) < 0x1_0000 ==> units(c).len() == 1 && units(c)[0] == c as u32,
        (c as u32) >= 0x1_0000 ==> {
            &&& units(c).len() == 2
            &&& 0xD800 <= units(c)[0] < 0xDC00
            &&& 0xDC00 <= units(c)[1] < 0xE000
            &&& 0x1_0000 + (units(c)[0] - 0xD800) * 0x400 + (units(c)[1] - 0xDC00) == c as u32
        },
{
}

/// A text's units are those of its characters, one after the other.
pub proof fn units_follow_each_other(c: char, some: Seq<char>, more: Seq<char>)
    ensures
        utf16(Seq::empty()).len() == 0,
        utf16(seq![c]) == units(c),
        utf16(some + more) == utf16(some) + utf16(more),
    decreases more.len(),
{
    reveal_with_fuel(utf16, 2);
    assert(seq![c].drop_last() =~= Seq::empty());
    assert(utf16(seq![c]) =~= units(c));
    if more.len() > 0 {
        units_follow_each_other(c, some, more.drop_last());
        assert((some + more).drop_last() =~= some + more.drop_last());
        assert(utf16(some + more) =~= utf16(some) + utf16(more));
    } else {
        assert(some + more =~= some);
        assert(utf16(some + more) =~= utf16(some) + utf16(more));
    }
}

/// A tooltip is the beginning of its text: all of it where it fits in 127 units, or else
/// as many. One null is behind it.
pub proof fn tip_is_the_beginning(s: Seq<char>, k: int)
    ensures
        ({
            let tip = tip_units(s);
            let all = utf16(s);
            &&& 1 <= tip.len() <= 128
            &&& tip.last() == 0
            &&& 0 <= k < tip.len() - 1 ==> tip[k] == all[k]
            &&& all.len() <= 127 ==> tip.len() == all.len() + 1
            &&& all.len() > 127 ==> tip.len() == 128
        }),
{
}

} // verus!
