//! The controlled side: what comes in from the controller, and what is injected for
//! it.

use crate::clipboard;
use crate::clipboard::{Offer, Synced};
use crate::clipboard_files;
use crate::clipboard_files::FileStamp;
use crate::controller;
use crate::controller::{Action, Controller, Point, Target};
use crate::coord::Coord;
use crate::emulation;
use crate::emulation::{Emulator, Injection};
use crate::event;
use crate::event::{Control, Direction, Event, Modifiers, MouseButton};
use crate::link;
use crate::proto;
use crate::proto::{Motion, Reliable};
use vstd::prelude::*;

verus! {

/// What comes in from the controller.
#[derive(Debug, Clone, PartialEq)]
pub enum Incoming {
    /// A controller has proved that it knows the secret; from now on the clipboard can
    /// be sent back to it.
    Connected,
    Reliable(Reliable),
    /// Files off the controller's clipboard, stored here.
    Files(Vec<FileStamp>),
    Motion(Motion),
    /// The controller is gone.
    Disconnected,
}

/// What to do with the clipboard.
#[derive(Debug, Clone, PartialEq, Eq)]
pub enum ClipboardStep {
    Nothing,
    /// Put this text on it.
    WriteText(String),
    /// Put the files that have come in on it.
    WriteFiles,
    /// Send it to the controller if it has changed.
    Offer,
}

/// The view of an `Incoming`.
pub ghost enum IncomingView {
    Connected,
    Reliable(proto::ReliableView),
    Files(Seq<FileStamp>),
    Motion(Motion),
    Disconnected,
}

/// The view of a `ClipboardStep`.
pub ghost enum ClipboardView {
    Nothing,
    WriteText(Seq<char>),
    WriteFiles,
    Offer,
}

impl View for Incoming {
    type V = IncomingView;

    open spec fn view(&self) -> IncomingView {
        match *self {
            Incoming::Connected => IncomingView::Connected,
            Incoming::Reliable(r) => IncomingView::Reliable(r@),
            Incoming::Files(f) => IncomingView::Files(f@),
            Incoming::Motion(m) => IncomingView::Motion(m),
            Incoming::Disconnected => IncomingView::Disconnected,
        }
    }
}

impl View for ClipboardStep {
    type V = ClipboardView;

    open spec fn view(&self) -> ClipboardView {
        match *self {
            ClipboardStep::Nothing => ClipboardView::Nothing,
            ClipboardStep::WriteText(t) => ClipboardView::WriteText(t@),
            ClipboardStep::WriteFiles => ClipboardView::WriteFiles,
            ClipboardStep::Offer => ClipboardView::Offer,
        }
    }
}

/// The answer to an `Incoming`: what to inject, in order, and then what to do with the
/// clipboard.
#[derive(Debug, Clone, PartialEq)]
pub struct Answer {
    pub inject: Vec<Injection>,
    pub clipboard: ClipboardStep,
}

/// Each modifier and the key that is pressed for it: the one on the left.
pub open spec fn modifier_usages() -> Seq<(u16, u16)> {
    seq![
        (Modifiers::CTRL, 0xE0u16),
        (Modifiers::SHIFT, 0xE1u16),
        (Modifiers::ALT, 0xE2u16),
        (Modifiers::META, 0xE3u16),
    ]
}

/// A press of `usage` if the modifier with this bit is down.
pub open spec fn press_if(mods: Modifiers, bit: u16, usage: u16) -> Seq<Event> {
    if mods.0 & bit != 0 {
        seq![Event::Key { usage, dir: Direction::Press }]
    } else {
        Seq::empty()
    }
}

/// Presses of the keys for the modifiers that are down, of the first `n` kinds.
pub open spec fn presses(mods: Modifiers, n: nat) -> Seq<Event>
    decreases n,
{
    if n == 0 {
        Seq::empty()
    } else {
        let (bit, usage) = modifier_usages()[n - 1];
        presses(mods, (n - 1) as nat) + press_if(mods, bit, usage)
    }
}

/// The cursor goes to where it enters, and the modifiers that are down on the
/// controller are pressed, so that none is missing here.
pub open spec fn entering(x: Coord, y: Coord, mods: Modifiers) -> Seq<Event> {
    seq![Event::MotionAbs { x, y }] + presses(mods, 4)
}

/// The events that are injected for an `Incoming`.
pub open spec fn events_of(item: IncomingView) -> Seq<Event> {
    match item {
        IncomingView::Motion(m) => seq![Event::MotionAbs { x: m.x, y: m.y }],
        IncomingView::Reliable(proto::ReliableView::Input(ev)) => seq![ev],
        IncomingView::Reliable(
            proto::ReliableView::Control(Control::Enter { x, y, mods }),
        ) => entering(x, y, mods),
        _ => Seq::empty(),
    }
}

/// The controller gives up control with this, or has lost it.
pub open spec fn hands_back(item: IncomingView) -> bool {
    item is Disconnected || item == IncomingView::Reliable(
        proto::ReliableView::Control(Control::Leave),
    )
}

/// Everything that has to be remembered between one `Incoming` and the next.
pub ghost struct State {
    /// The usages held down.
    pub keys: Seq<u16>,
    /// The buttons held down.
    pub buttons: Seq<MouseButton>,
    /// The fingerprint of what the clipboards last agreed on.
    pub last: Option<u64>,
    /// There is a controller.
    pub connected: bool,
}

/// What is injected for an `Incoming`: what it asks for or, once control is handed
/// back, the release of everything held.
pub open spec fn injected_for(s: State, item: IncomingView) -> Seq<Injection> {
    if hands_back(item) {
        emulation::key_releases(s.keys) + emulation::button_releases(s.buttons)
    } else {
        emulation::injected(events_of(item))
    }
}

/// What is done with the clipboard about an `Incoming`.
pub open spec fn clipboard_for(s: State, item: IncomingView) -> ClipboardView {
    match item {
        IncomingView::Reliable(proto::ReliableView::Clipboard(t)) => ClipboardView::WriteText(t),
        IncomingView::Files(_) => ClipboardView::WriteFiles,
        IncomingView::Reliable(proto::ReliableView::Control(Control::Leave)) => if s.connected {
            ClipboardView::Offer
        } else {
            ClipboardView::Nothing
        },
        _ => ClipboardView::Nothing,
    }
}

/// The state after an `Incoming`.
pub open spec fn next(s: State, item: IncomingView) -> State {
    State {
        keys: if hands_back(item) {
            Seq::empty()
        } else {
            emulation::keys_from(s.keys, events_of(item))
        },
        buttons: if hands_back(item) {
            Seq::empty()
        } else {
            emulation::buttons_from(s.buttons, events_of(item))
        },
        last: match item {
            IncomingView::Reliable(proto::ReliableView::Clipboard(t)) => Some(
                clipboard_files::text_print(t),
            ),
            IncomingView::Files(f) => Some(clipboard_files::files_print(f)),
            _ => s.last,
        },
        connected: match item {
            IncomingView::Connected => true,
            IncomingView::Disconnected => false,
            _ => s.connected,
        },
    }
}

/// The controlled side.
pub struct Controlled {
    emulator: Emulator,
    synced: Synced,
    connected: bool,
}

impl View for Controlled {
    type V = State;

    closed spec fn view(&self) -> State {
        State {
            keys: self.emulator.held_keys(),
            buttons: self.emulator.held_buttons(),
            last: self.synced.last,
            connected: self.connected,
        }
    }
}

impl Controlled {
    /// Waits for a controller.
    pub fn new() -> (r: Controlled)
        ensures
            r@ == waiting(),
    {
        Controlled { emulator: Emulator::new(), synced: Synced::new(), connected: false }
    }

    /// What to send of the clipboard, now that control is handed back.
    pub fn offer(&mut self, files: &Vec<FileStamp>, text: Option<&String>) -> (r: Offer)
        ensures
            r == clipboard::offered(
                old(self)@.last,
                files@,
                match text {
                    Some(t) => Some(t@),
                    None => None,
                },
            ),
            final(self)@ == (State {
                last: clipboard::remembered(
                    old(self)@.last,
                    files@,
                    match text {
                        Some(t) => Some(t@),
                        None => None,
                    },
                ),
                ..old(self)@
            }),
    {
        self.synced.offer(files, text)
    }

    /// Something has come in.
    pub fn handle(&mut self, item: Incoming) -> (r: Answer)
        ensures
            r.inject@ == injected_for(old(self)@, item@),
            r.clipboard@ == clipboard_for(old(self)@, item@),
            final(self)@ == next(old(self)@, item@),
    {
        let ghost state = old(self)@;
        match item {
            Incoming::Connected => {
                self.connected = true;
                Answer { inject: Vec::new(), clipboard: ClipboardStep::Nothing }
            },
            Incoming::Motion(m) => {
                let ev = Event::MotionAbs { x: m.x, y: m.y };
                proof {
                    one_event(state, ev);
                }
                Answer { inject: self.emulator.emit(&ev), clipboard: ClipboardStep::Nothing }
            },
            Incoming::Reliable(Reliable::Input(ev)) => {
                proof {
                    one_event(state, ev);
                }
                Answer { inject: self.emulator.emit(&ev), clipboard: ClipboardStep::Nothing }
            },
            Incoming::Reliable(Reliable::Clipboard(text)) => {
                self.synced.received_text(text.as_str());
                Answer { inject: Vec::new(), clipboard: ClipboardStep::WriteText(text) }
            },
            Incoming::Files(files) => {
                self.synced.received_files(&files);
                Answer { inject: Vec::new(), clipboard: ClipboardStep::WriteFiles }
            },
            Incoming::Reliable(Reliable::Control(Control::Enter { x, y, mods })) => Answer {
                inject: self.enter(x, y, mods),
                clipboard: ClipboardStep::Nothing,
            },
            Incoming::Reliable(Reliable::Control(Control::Leave)) => {
                let inject = self.emulator.release_all();
                let clipboard = if self.connected {
                    ClipboardStep::Offer
                } else {
                    ClipboardStep::Nothing
                };
                Answer { inject, clipboard }
            },
            Incoming::Disconnected => {
                let inject = self.emulator.release_all();
                self.connected = false;
                Answer { inject, clipboard: ClipboardStep::Nothing }
            },
        }
    }

    fn enter(&mut self, x: Coord, y: Coord, mods: Modifiers) -> (r: Vec<Injection>)
        ensures
            r@ == emulation::injected(entering(x, y, mods)),
            final(self)@ == (State {
                keys: emulation::keys_from(old(self)@.keys, entering(x, y, mods)),
                buttons: emulation::buttons_from(old(self)@.buttons, entering(x, y, mods)),
                ..old(self)@
            }),
    {
        let ghost state = old(self)@;
        let ghost first = Event::MotionAbs { x, y };
        let mut out: Vec<Injection> = self.emulator.emit(&Event::MotionAbs { x, y });
        proof {
            one_event(state, first);
            assert(seq![first] + presses(mods, 0) =~= seq![first]);
        }
        let table: [(u16, u16); 4] = [
            (Modifiers::CTRL, 0xE0),
            (Modifiers::SHIFT, 0xE1),
            (Modifiers::ALT, 0xE2),
            (Modifiers::META, 0xE3),
        ];
        let mut i: usize = 0;
        while i < 4
            invariant
                i <= 4,
                table@ == modifier_usages(),
                out@ == emulation::injected(seq![first] + presses(mods, i as nat)),
                self@ == (State {
                    keys: emulation::keys_from(state.keys, seq![first] + presses(mods, i as nat)),
                    buttons: emulation::buttons_from(
                        state.buttons,
                        seq![first] + presses(mods, i as nat),
                    ),
                    ..state
                }),
            decreases 4 - i,
        {
            let (bit, usage) = table[i];
            let ghost past = seq![first] + presses(mods, i as nat);
            let ghost now = seq![first] + presses(mods, (i + 1) as nat);
            if mods.0 & bit != 0 {
                let ev = Event::Key { usage, dir: Direction::Press };
                assert(now.drop_last() =~= past);
                assert(now.last() == ev);
                let mut more = self.emulator.emit(&ev);
                out.append(&mut more);
            } else {
                assert(now =~= past);
            }
            i = i + 1;
        }
        out
    }
}

proof fn one_event(s: State, ev: Event)
    ensures
        emulation::injected(seq![ev]) == emulation::injections(ev),
        emulation::keys_from(s.keys, seq![ev]) == emulation::keys_after(s.keys, ev),
        emulation::buttons_from(s.buttons, seq![ev]) == emulation::buttons_after(s.buttons, ev),
{
    reveal_with_fuel(emulation::injected, 2);
    reveal_with_fuel(emulation::keys_from, 2);
    reveal_with_fuel(emulation::buttons_from, 2);
    assert(seq![ev].drop_last() =~= Seq::empty());
    assert(Seq::<Injection>::empty() + emulation::injections(ev) =~= emulation::injections(ev));
}

/// No controller yet, and nothing held.
pub open spec fn waiting() -> State {
    State { keys: Seq::empty(), buttons: Seq::empty(), last: None, connected: false }
}

/// The state after everything that has come in, and everything that was injected.
pub open spec fn history(items: Seq<IncomingView>) -> (State, Seq<Injection>)
    decreases items.len(),
{
    if items.len() == 0 {
        (waiting(), Seq::empty())
    } else {
        let (s, done) = history(items.drop_last());
        (next(s, items.last()), done + injected_for(s, items.last()))
    }
}

proof fn history_is_remembered(
    items: Seq<IncomingView>,
    key: emulation::Key,
    button: MouseButton,
)
    ensures
        emulation::remembers(
            history(items).1,
            history(items).0.keys,
            history(items).0.buttons,
            key,
            button,
        ),
    decreases items.len(),
{
    if items.len() > 0 {
        let (s, done) = history(items.drop_last());
        let item = items.last();
        history_is_remembered(items.drop_last(), key, button);
        if hands_back(item) {
            emulation::nothing_stays_down(done, s.keys, s.buttons, key, button);
        } else {
            emulation::memory_is_complete(done, s.keys, s.buttons, events_of(item), key, button);
        }
    }
}

/// Whatever has come in: once the controller has left, or is gone, no key and no
/// button is down.
pub proof fn nothing_is_stuck(
    items: Seq<IncomingView>,
    key: emulation::Key,
    button: MouseButton,
)
    requires
        items.len() > 0,
        hands_back(items.last()),
    ensures
        !emulation::key_down(history(items).1, key),
        !emulation::button_down(history(items).1, button),
        history(items).0.keys == Seq::<u16>::empty(),
        history(items).0.buttons == Seq::<MouseButton>::empty(),
{
    let (s, done) = history(items.drop_last());
    history_is_remembered(items.drop_last(), key, button);
    emulation::nothing_stays_down(done, s.keys, s.buttons, key, button);
}

/// Entering presses the key of each modifier that is down on the controller, and no
/// other key, after it has placed the cursor.
pub proof fn entering_presses_the_modifiers(x: Coord, y: Coord, mods: Modifiers, i: int)
    requires
        0 <= i < 4,
    ensures
        entering(x, y, mods)[0] == (Event::MotionAbs { x, y }),
        ({
            let (bit, usage) = modifier_usages()[i];
            entering(x, y, mods).contains(Event::Key { usage, dir: Direction::Press }) <==> mods.0
                & bit != 0
        }),
        forall|k: int|
            1 <= k < entering(x, y, mods).len() ==> (#[trigger] entering(x, y, mods)[k] matches
                Event::Key { usage, dir } && 0xE0 <= usage <= 0xE3 && dir == Direction::Press),
{
    reveal_with_fuel(presses, 5);
    let p0 = press_if(mods, Modifiers::CTRL, 0xE0);
    let p1 = press_if(mods, Modifiers::SHIFT, 0xE1);
    let p2 = press_if(mods, Modifiers::ALT, 0xE2);
    let p3 = press_if(mods, Modifiers::META, 0xE3);
    let all = entering(x, y, mods);
    assert(all =~= seq![Event::MotionAbs { x, y }] + p0 + p1 + p2 + p3);
    let (bit, usage) = modifier_usages()[i];
    let it = Event::Key { usage, dir: Direction::Press };
    if mods.0 & bit != 0 {
        let at = if i == 0 {
            1
        } else if i == 1 {
            1 + p0.len()
        } else if i == 2 {
            1 + p0.len() + p1.len()
        } else {
            1 + p0.len() + p1.len() + p2.len()
        };
        assert(all[at as int] == it);
    } else if all.contains(it) {
        let k = choose|k: int| 0 <= k < all.len() && all[k] == it;
        assert(k != 0);
        if k < 1 + p0.len() {
            assert(all[k] == p0[k - 1]);
        } else if k < 1 + p0.len() + p1.len() {
            assert(all[k] == p1[k - 1 - p0.len()]);
        } else if k < 1 + p0.len() + p1.len() + p2.len() {
            assert(all[k] == p2[k - 1 - p0.len() - p1.len()]);
        } else {
            assert(all[k] == p3[k - 1 - p0.len() - p1.len() - p2.len()]);
        }
    }
}

/// The clipboard goes back only on leaving, and only to a controller that is there.
pub proof fn clipboard_goes_back_on_leave(s: State, item: IncomingView)
    ensures
        clipboard_for(s, item) is Offer <==> s.connected && item == IncomingView::Reliable(
            proto::ReliableView::Control(Control::Leave),
        ),
{
}

/// Text that the controller has sent is not sent back to it when it leaves, unless the
/// clipboard has changed since.
pub proof fn received_text_is_not_sent_back(s: State, text: Seq<char>)
    ensures
        ({
            let item = IncomingView::Reliable(proto::ReliableView::Clipboard(text));
            let leave = IncomingView::Reliable(proto::ReliableView::Control(Control::Leave));
            clipboard::offered(next(next(s, item), leave).last, Seq::empty(), Some(text))
                == Offer::Nothing
        }),
{
}

/// From end to end: what the user does with a key, a button or the wheel while control
/// is remote goes over the wire, and is injected as it was captured.
pub proof fn captured_input_is_injected(c: Controller, ev: Event, to: Point, s: State)
    requires
        c.target == Target::Remote,
        ev is Key || ev is Button || ev is Scroll,
    ensures
        ({
            let msg = proto::ReliableView::Input(ev);
            &&& controller::step(c, ev, to).1 == seq![Action::SendInput(ev)]
            &&& link::message_in(proto::reliable_bytes(msg)) == Some(msg)
            &&& injected_for(s, IncomingView::Reliable(msg)) == emulation::injections(ev)
        }),
{
    let msg = proto::ReliableView::Input(ev);
    controller::remote_input_is_forwarded(c, ev, to);
    link::message_arrives(msg);
    let sent = seq![proto::STREAM_TAG_MSG] + proto::reliable_bytes(msg);
    assert(sent.skip(1) =~= proto::reliable_bytes(msg));
    one_event(s, ev);
}

/// Control is handed back by leaving and by being gone, and by nothing else.
pub proof fn what_hands_back(item: IncomingView)
    ensures
        hands_back(item) <==> (item is Disconnected || (item matches IncomingView::Reliable(
            proto::ReliableView::Control(c),
        ) && c is Leave)),
{
}

/// Every input event is injected as it came, and a position as the cursor's position,
/// whatever the state. What has nothing to inject injects nothing.
pub proof fn input_is_injected_as_it_came(s: State, ev: Event, m: Motion, item: IncomingView)
    ensures
        injected_for(s, IncomingView::Reliable(proto::ReliableView::Input(ev)))
            == emulation::injections(ev),
        injected_for(s, IncomingView::Motion(m)) == seq![Injection::MoveTo { x: m.x, y: m.y }],
        item is Connected || item is Files || (item matches IncomingView::Reliable(r) && r
            is Clipboard) ==> injected_for(s, item).len() == 0,
{
    one_event(s, ev);
    one_event(s, Event::MotionAbs { x: m.x, y: m.y });
    assert(emulation::injections(Event::MotionAbs { x: m.x, y: m.y }) =~= seq![
        Injection::MoveTo { x: m.x, y: m.y },
    ]);
}

/// Entering moves the cursor and then presses the left key of each modifier, each at most
/// once, in the order of the usages.
pub proof fn entering_presses_each_once(x: Coord, y: Coord, mods: Modifiers, j: int, k: int)
    requires
        1 <= j < k < entering(x, y, mods).len(),
    ensures
        entering(x, y, mods)[j] matches Event::Key { usage: a, .. } && (entering(
            x,
            y,
            mods,
        )[k] matches Event::Key { usage: b, .. } && a < b),
{
    reveal_with_fuel(presses, 5);
    let p0 = press_if(mods, Modifiers::CTRL, 0xE0);
    let p1 = press_if(mods, Modifiers::SHIFT, 0xE1);
    let p2 = press_if(mods, Modifiers::ALT, 0xE2);
    let p3 = press_if(mods, Modifiers::META, 0xE3);
    let all = entering(x, y, mods);
    assert(all =~= seq![Event::MotionAbs { x, y }] + p0 + p1 + p2 + p3);
}

/// The key that is pressed for a modifier is one that changes it: for the first four
/// usages of modifiers, the modifier that the key stands for.
pub proof fn keys_are_those_of_their_modifiers(i: int)
    requires
        0 <= i < 4,
    ensures
        modifier_usages().len() == 4,
        modifier_usages()[i].1 == 0xE0 + i,
        event::modifier_bit(modifier_usages()[i].1) == Some(modifier_usages()[i].0),
{
}

/// The clipboard is written with exactly what has come in for it: a text as it is, and
/// files where files have come; nothing else writes it.
pub proof fn clipboard_is_what_came_in(s: State, item: IncomingView, text: Seq<char>)
    ensures
        clipboard_for(s, item) == ClipboardView::WriteText(text) <==> item
            == IncomingView::Reliable(proto::ReliableView::Clipboard(text)),
        clipboard_for(s, item) is WriteFiles <==> item is Files,
{
}

/// What is remembered between one and the next: there is a controller from its coming to
/// its going, what came in for the clipboard counts as synchronised, and nothing is held
/// once control was handed back.
pub proof fn what_is_remembered(s: State, item: IncomingView)
    ensures
        ({
            let t = next(s, item);
            &&& t.connected <==> item is Connected || s.connected && !(item is Disconnected)
            &&& item matches IncomingView::Reliable(proto::ReliableView::Clipboard(text)) ==> t.last
                == Some(clipboard_files::text_print(text))
            &&& item matches IncomingView::Files(f) ==> t.last == Some(
                clipboard_files::files_print(f),
            )
            &&& !(item is Files) && !(item matches IncomingView::Reliable(r) && r is Clipboard)
                ==> t.last == s.last
            &&& item is Connected || item is Files || item is Motion ==> t.keys == s.keys
                && t.buttons == s.buttons
            &&& item matches IncomingView::Reliable(proto::ReliableView::Input(ev)) ==> t.keys
                == emulation::keys_after(s.keys, ev) && t.buttons == emulation::buttons_after(
                s.buttons,
                ev,
            )
        }),
{
    if let IncomingView::Reliable(proto::ReliableView::Input(ev)) = item {
        one_event(s, ev);
    }
    if let IncomingView::Motion(m) = item {
        one_event(s, Event::MotionAbs { x: m.x, y: m.y });
    }
}

/// At first there is no controller, nothing is held and nothing was synchronised.
pub proof fn waiting_holds_nothing()
    ensures
        waiting().keys.len() == 0,
        waiting().buttons.len() == 0,
        waiting().last is None,
        !waiting().connected,
{
}

/// What is injected when control comes over is the move to the point of entry and then
/// a press for each modifier, through the table of keys; and those keys are held.
pub proof fn entering_is_injected(s: State, x: Coord, y: Coord, mods: Modifiers)
    ensures
        ({
            let item = IncomingView::Reliable(
                proto::ReliableView::Control(Control::Enter { x, y, mods }),
            );
            let all = injected_for(s, item);
            &&& all == emulation::injected(entering(x, y, mods))
            &&& all.len() > 0 && all[0] == (Injection::MoveTo { x, y })
            &&& next(s, item).keys == emulation::keys_from(s.keys, entering(x, y, mods))
            &&& next(s, item).buttons == emulation::buttons_from(s.buttons, entering(x, y, mods))
        }),
{
    let first = Event::MotionAbs { x, y };
    emulation::one_after_the_other(first, seq![first], presses(mods, 4), s.keys, s.buttons);
    assert(emulation::injections(first) =~= seq![Injection::MoveTo { x, y }]);
}

} // verus!
