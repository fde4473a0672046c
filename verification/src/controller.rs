//! The controller's side: who is being controlled, and what goes to the peer.
//!
//! While the cursor is on the local screen, input stays local and only its position
//! is watched: at the edge towards the remote screen control crosses over. From
//! then on local input is swallowed, displacements move a virtual cursor on the
//! remote screen, and everything else is forwarded, until that cursor goes back past
//! the edge that it came in by.

use crate::clipboard::Synced;
use crate::clipboard_files;
use crate::config;
use crate::config::Remote;
use crate::coord;
use crate::coord::Coord;
use crate::event;
use crate::event::{Control, Event, Modifiers};
use crate::proto;
use crate::proto::Reliable;
use vstd::prelude::*;

verus! {

/// The time between two positions sent to the peer, in milliseconds.
pub const TICK_MILLIS: u64 = 8;

/// The time before another attempt to connect, in seconds.
pub const RETRY_SECS: u64 = 2;

/// The screen that input goes to.
#[derive(Debug, Clone, Copy, PartialEq, Eq, Structural)]
pub enum Target {
    Local,
    Remote,
}

/// A position on the remote screen, in its pixels.
#[derive(Debug, Clone, Copy, PartialEq)]
pub struct Point {
    pub x: Coord,
    pub y: Coord,
}

/// What the controller does about an event.
#[derive(Debug, Clone, Copy, PartialEq)]
pub enum Action {
    /// Send this to the peer, over a reliable stream.
    SendControl(Control),
    /// Send this input to the peer, over a reliable stream.
    SendInput(Event),
    /// Swallow local input, or stop swallowing it.
    Grab(bool),
    /// Send the clipboard to the peer if it has changed.
    OfferClipboard,
}

/// The edge-switching state machine, for one connection.
#[derive(Debug, Clone, Copy, PartialEq)]
pub struct Controller {
    /// The remote screen.
    pub remote: Remote,
    pub target: Target,
    /// The virtual cursor on the remote screen.
    pub cursor: Point,
    /// The modifiers that are down.
    pub mods: Modifiers,
    /// The newest position that has not been sent. Positions in between are dropped,
    /// so that a slow network never makes for a backlog of old ones.
    pub pending: Option<Point>,
}

/// This position, kept on the screen.
pub open spec fn kept_on(remote: Remote, p: Point) -> Point {
    let zero = Coord { bits: coord::ZERO };
    Point { x: p.x.clamped(zero, remote.width), y: p.y.clamped(zero, remote.height) }
}

/// The state machine. `to` is where a displacement takes the virtual cursor, and
/// where on the remote screen the point of entry is; it matters to no other event.
pub open spec fn step(c: Controller, ev: Event, to: Point) -> (Controller, Seq<Action>) {
    match c.target {
        Target::Local => match ev {
            Event::Key { usage, dir } => (
                Controller { mods: event::modifiers_after(c.mods, usage, dir), ..c },
                Seq::empty(),
            ),
            Event::MotionAbs { x, y } => match config::entry(c.remote.side, x, y) {
                Some((ex, ey)) => (
                    Controller { target: Target::Remote, cursor: to, ..c },
                    seq![
                        Action::SendControl(Control::Enter { x: ex, y: ey, mods: c.mods }),
                        Action::Grab(true),
                        Action::OfferClipboard,
                    ],
                ),
                None => (c, Seq::empty()),
            },
            _ => (c, Seq::empty()),
        },
        Target::Remote => match ev {
            Event::MotionRel { .. } => if left(c, to) {
                (
                    Controller { target: Target::Local, cursor: to, pending: None, ..c },
                    seq![Action::SendControl(Control::Leave), Action::Grab(false)],
                )
            } else {
                let p = kept_on(c.remote, to);
                (Controller { cursor: p, pending: Some(p), ..c }, Seq::empty())
            },
            Event::Key { usage, dir } => (
                Controller { mods: event::modifiers_after(c.mods, usage, dir), ..c },
                seq![Action::SendInput(ev)],
            ),
            Event::MotionAbs { .. } => (c, Seq::empty()),
            _ => (c, seq![Action::SendInput(ev)]),
        },
    }
}

/// The cursor goes home at this position.
pub open spec fn left(c: Controller, to: Point) -> bool {
    config::past_home_edge(c.remote.side, to.x, to.y, c.remote.width, c.remote.height)
}

/// The state machine after the escape chord.
pub open spec fn escaped(c: Controller) -> (Controller, Seq<Action>) {
    match c.target {
        Target::Local => (c, Seq::empty()),
        Target::Remote => (
            Controller { target: Target::Local, pending: None, ..c },
            seq![Action::SendControl(Control::Leave)],
        ),
    }
}

impl Controller {
    /// Control starts at the local screen.
    pub fn new(remote: Remote) -> (r: Controller)
        ensures
            r == starting(remote),
    {
        let zero = Coord { bits: coord::ZERO };
        Controller {
            remote,
            target: Target::Local,
            cursor: Point { x: zero, y: zero },
            mods: Modifiers(0),
            pending: None,
        }
    }

    /// Whether the virtual cursor, displaced to `to`, goes home.
    pub fn leaves(&self, to: Point) -> (r: bool)
        ensures
            r == left(*self, to),
    {
        config::left_remote(self.remote.side, to.x, to.y, self.remote.width, self.remote.height)
    }

    /// An event was captured. `to` is the virtual cursor's position plus the
    /// displacement, for a displacement; the point of entry times the remote screen's
    /// size, for a position; anything, for another event. A screen without an area
    /// has no position to keep the cursor at.
    pub fn captured(&mut self, ev: &Event, to: Point) -> (r: Vec<Action>)
        requires
            old(self).target == Target::Remote && ev is MotionRel && !left(*old(self), to) ==> old(
                self,
            ).remote.has_area(),
        ensures
            (*final(self), r@) == step(*old(self), *ev, to),
    {
        let mut out: Vec<Action> = Vec::new();
        match self.target {
            Target::Local => match *ev {
                Event::Key { usage, dir } => {
                    event::update_mods(&mut self.mods, usage, dir);
                },
                Event::MotionAbs { x, y } => {
                    if let Some((ex, ey)) = config::enter_point(self.remote.side, x, y) {
                        self.cursor = to;
                        self.target = Target::Remote;
                        out.push(
                            Action::SendControl(Control::Enter { x: ex, y: ey, mods: self.mods }),
                        );
                        out.push(Action::Grab(true));
                        out.push(Action::OfferClipboard);
                    }
                },
                _ => {},
            },
            Target::Remote => match *ev {
                Event::MotionRel { .. } => {
                    if self.leaves(to) {
                        self.cursor = to;
                        self.target = Target::Local;
                        self.pending = None;
                        out.push(Action::SendControl(Control::Leave));
                        out.push(Action::Grab(false));
                    } else {
                        let zero = Coord { bits: coord::ZERO };
                        let p = Point {
                            x: to.x.clamp(zero, self.remote.width),
                            y: to.y.clamp(zero, self.remote.height),
                        };
                        self.cursor = p;
                        self.pending = Some(p);
                    }
                },
                Event::Key { usage, dir } => {
                    event::update_mods(&mut self.mods, usage, dir);
                    out.push(Action::SendInput(*ev));
                },
                Event::MotionAbs { .. } => {},
                _ => {
                    out.push(Action::SendInput(*ev));
                },
            },
        }
        assert(out@ =~= step(*old(self), *ev, to).1);
        out
    }

    /// Takes the position to send now, if the cursor has moved since the last one.
    pub fn tick(&mut self) -> (r: Option<Point>)
        ensures
            r == old(self).pending,
            *final(self) == (Controller { pending: None, ..*old(self) }),
    {
        let p = self.pending;
        self.pending = None;
        p
    }

    /// The capture backend has seen the escape chord and stopped swallowing input.
    /// Control comes home, and the peer is told so that it lets go of every key.
    pub fn escape(&mut self) -> (r: Vec<Action>)
        ensures
            (*final(self), r@) == escaped(*old(self)),
    {
        let mut out: Vec<Action> = Vec::new();
        match self.target {
            Target::Local => {},
            Target::Remote => {
                self.target = Target::Local;
                self.pending = None;
                out.push(Action::SendControl(Control::Leave));
            },
        }
        assert(out@ =~= escaped(*old(self)).1);
        out
    }
}

/// The state of a new connection.
pub open spec fn starting(remote: Remote) -> Controller {
    let zero = Coord { bits: coord::ZERO };
    Controller {
        remote,
        target: Target::Local,
        cursor: Point { x: zero, y: zero },
        mods: Modifiers(0),
        pending: None,
    }
}

/// What becomes of the connection to the peer.
#[derive(Debug, Clone, Copy, PartialEq, Eq, Structural)]
pub enum LinkEvent {
    /// It is there, and the peer has let the controller in.
    Connected,
    /// It could not be had.
    Failed,
    /// It was there and is no more.
    Lost,
}

/// What the controller does about its connection.
#[derive(Debug, Clone, Copy, PartialEq, Eq, Structural)]
pub enum LinkAction {
    /// Try to connect.
    Connect,
    /// Wait for so many seconds.
    Wait(u64),
    /// Run a new state machine on the connection.
    Drive,
    /// Swallow local input, or stop swallowing it.
    Grab(bool),
}

/// What the controller does about its connection: it tries for as long as it takes,
/// and the first thing that it does about one that is lost is to give the user their
/// machine back.
pub open spec fn link_reaction(ev: LinkEvent) -> Seq<LinkAction> {
    match ev {
        LinkEvent::Connected => seq![LinkAction::Drive],
        LinkEvent::Failed => seq![LinkAction::Wait(RETRY_SECS), LinkAction::Connect],
        LinkEvent::Lost => seq![LinkAction::Grab(false), LinkAction::Connect],
    }
}

/// What the controller does about its connection.
pub fn on_link(ev: LinkEvent) -> (r: Vec<LinkAction>)
    ensures
        r@ == link_reaction(ev),
{
    let mut out: Vec<LinkAction> = Vec::new();
    match ev {
        LinkEvent::Connected => {
            out.push(LinkAction::Drive);
        },
        LinkEvent::Failed => {
            out.push(LinkAction::Wait(RETRY_SECS));
            out.push(LinkAction::Connect);
        },
        LinkEvent::Lost => {
            out.push(LinkAction::Grab(false));
            out.push(LinkAction::Connect);
        },
    }
    assert(out@ =~= link_reaction(ev));
    out
}

/// The peer has sent a message back. The text to put on the clipboard, where it sent
/// one; a controlled machine sends no other message.
pub fn returned(synced: &mut Synced, msg: Reliable) -> (r: Option<String>)
    ensures
        match msg@ {
            proto::ReliableView::Clipboard(t) => {
                &&& r matches Some(s) && s@ == t
                &&& final(synced).last == Some(clipboard_files::text_print(t))
            },
            _ => r is None && *final(synced) == *old(synced),
        },
{
    match msg {
        Reliable::Clipboard(text) => {
            synced.received_text(text.as_str());
            Some(text)
        },
        _ => None,
    }
}

/// Local input is swallowed exactly while control is remote: an event that moves
/// control says so, and no other event touches it.
pub proof fn grab_follows_target(c: Controller, ev: Event, to: Point, grab: bool)
    ensures
        ({
            let (next, acts) = step(c, ev, to);
            acts.contains(Action::Grab(grab)) <==> next.target != c.target && grab == (next.target
                == Target::Remote)
        }),
{
    let (next, acts) = step(c, ev, to);
    if next.target != c.target {
        assert(acts[1] is Grab);
        assert(acts.contains(acts[1]));
    }
}

/// While control is local nothing of the input is sent. All that can leave the
/// machine is the crossing itself, with the modifiers that are down.
pub proof fn local_input_stays_local(c: Controller, ev: Event, to: Point)
    requires
        c.target == Target::Local,
    ensures
        forall|i: int|
            0 <= i < step(c, ev, to).1.len() ==> !((#[trigger] step(c, ev, to).1[i])
                is SendInput),
        step(c, ev, to).0.target == Target::Remote ==> ev is MotionAbs && (step(c, ev, to).1[0]
            matches Action::SendControl(Control::Enter { mods, .. }) && mods == c.mods),
        step(c, ev, to).0.target == Target::Local ==> step(c, ev, to).1.len() == 0,
{
}

/// While control is remote, every key, button and scroll is forwarded as it is, once,
/// and moves neither control nor the cursor.
pub proof fn remote_input_is_forwarded(c: Controller, ev: Event, to: Point)
    requires
        c.target == Target::Remote,
        ev is Key || ev is Button || ev is Scroll,
    ensures
        step(c, ev, to).1 == seq![Action::SendInput(ev)],
        step(c, ev, to).0.target == Target::Remote,
        step(c, ev, to).0.cursor == c.cursor,
        step(c, ev, to).0.pending == c.pending,
{
}

/// Only a displacement past the edge that the cursor came in by brings control home,
/// and then no position is left to be sent.
pub proof fn only_the_home_edge_leads_home(c: Controller, ev: Event, to: Point)
    requires
        c.target == Target::Remote,
    ensures
        step(c, ev, to).0.target == Target::Local <==> ev is MotionRel && left(c, to),
        step(c, ev, to).0.target == Target::Local ==> step(c, ev, to).0.pending is None && step(
            c,
            ev,
            to,
        ).1 == seq![Action::SendControl(Control::Leave), Action::Grab(false)],
{
}

/// The position that waits to be sent is the cursor's, and only while control is
/// remote: nothing moves the peer's cursor after control has come home.
pub open spec fn pending_is_current(c: Controller) -> bool {
    c.pending matches Some(p) ==> c.target == Target::Remote && p == c.cursor
}

/// Every operation keeps what waits to be sent current.
pub proof fn pending_stays_current(c: Controller, ev: Event, to: Point, remote: Remote)
    ensures
        pending_is_current(starting(remote)),
        pending_is_current(c) ==> pending_is_current(step(c, ev, to).0),
        pending_is_current(c) ==> pending_is_current(escaped(c).0),
        pending_is_current(Controller { pending: None, ..c }),
{
}

/// The virtual cursor stays on the remote screen as long as control does, unless the
/// displacement is not a number.
pub proof fn cursor_stays_on_screen(c: Controller, ev: Event, to: Point)
    requires
        c.target == Target::Remote,
        ev is MotionRel,
        !left(c, to),
        c.remote.has_area(),
        !to.x.is_nan(),
        !to.y.is_nan(),
    ensures
        ({
            let zero = Coord { bits: coord::ZERO };
            let p = step(c, ev, to).0.cursor;
            zero.le(p.x) && p.x.le(c.remote.width) && zero.le(p.y) && p.y.le(c.remote.height)
        }),
{
}

/// A position that is sent is the newest one: of two displacements between two ticks
/// only where the second leads is ever sent.
pub proof fn newest_position_wins(
    c: Controller,
    first: Event,
    to_first: Point,
    second: Event,
    to_second: Point,
)
    requires
        c.target == Target::Remote,
        first is MotionRel,
        second is MotionRel,
        !left(c, to_first),
        !left(c, to_second),
    ensures
        step(step(c, first, to_first).0, second, to_second).0.pending == Some(
            kept_on(c.remote, to_second),
        ),
{
}

/// The escape chord brings control home from anywhere, and the peer is told where it
/// was in control.
pub proof fn escape_leads_home(c: Controller)
    ensures
        escaped(c).0.target == Target::Local,
        escaped(c).1.contains(Action::SendControl(Control::Leave)) <==> c.target
            == Target::Remote,
        escaped(c).0.mods == c.mods,
{
    if c.target == Target::Remote {
        assert(escaped(c).1[0] == Action::SendControl(Control::Leave));
    }
}

/// What the state machine is told.
pub ghost enum Input {
    /// An event was captured, and leads here.
    Captured(Event, Point),
    /// It is time to send the position.
    Tick,
    /// The capture backend has seen the escape chord, and has stopped swallowing input.
    Escape,
    /// The system has stopped the capture backend (a password field, a permission taken
    /// away), which has stopped swallowing input. The state machine is not told.
    Stopped,
}

/// The state after an input, and what was done about it. That the capture backend has
/// ended the grab, before an escape or because it was stopped, counts as done.
pub open spec fn told(c: Controller, input: Input) -> (Controller, Seq<Action>) {
    match input {
        Input::Captured(ev, to) => step(c, ev, to),
        Input::Tick => (Controller { pending: None, ..c }, Seq::empty()),
        Input::Escape => {
            let (next, acts) = escaped(c);
            (next, seq![Action::Grab(false)] + acts)
        },
        Input::Stopped => (c, seq![Action::Grab(false)]),
    }
}

/// A run of the state machine: the state, and everything that was done.
pub open spec fn run(c: Controller, inputs: Seq<Input>) -> (Controller, Seq<Action>)
    decreases inputs.len(),
{
    if inputs.len() == 0 {
        (c, Seq::empty())
    } else {
        let (mid, done) = run(c, inputs.drop_last());
        let (next, acts) = told(mid, inputs.last());
        (next, done + acts)
    }
}

/// Whether local input is swallowed after these actions: as the last one about it
/// says.
pub open spec fn swallowed(acts: Seq<Action>) -> bool
    decreases acts.len(),
{
    if acts.len() == 0 {
        false
    } else {
        match acts.last() {
            Action::Grab(grab) => grab,
            _ => swallowed(acts.drop_last()),
        }
    }
}

/// Whether the peer is in control after these actions: as the last `Enter` or `Leave`
/// says.
pub open spec fn peer_entered(acts: Seq<Action>) -> bool
    decreases acts.len(),
{
    if acts.len() == 0 {
        false
    } else {
        match acts.last() {
            Action::SendControl(Control::Enter { .. }) => true,
            Action::SendControl(Control::Leave) => false,
            _ => peer_entered(acts.drop_last()),
        }
    }
}

/// The system has not stopped the capture backend.
pub open spec fn undisturbed(inputs: Seq<Input>) -> bool {
    forall|i: int| 0 <= i < inputs.len() ==> !((#[trigger] inputs[i]) is Stopped)
}

/// After any run local input is swallowed only if control is remote, and the peer has
/// been told that it is in control exactly then. Unless the system has stopped the
/// capture backend, input is swallowed exactly if control is remote.
pub proof fn input_is_swallowed_only_while_remote(remote: Remote, inputs: Seq<Input>)
    ensures
        ({
            let (c, done) = run(starting(remote), inputs);
            &&& swallowed(done) ==> c.target == Target::Remote
            &&& undisturbed(inputs) ==> swallowed(done) == (c.target == Target::Remote)
            &&& peer_entered(done) == (c.target == Target::Remote)
        }),
    decreases inputs.len(),
{
    if inputs.len() > 0 {
        input_is_swallowed_only_while_remote(remote, inputs.drop_last());
        let (mid, done) = run(starting(remote), inputs.drop_last());
        let (next, acts) = told(mid, inputs.last());
        let all = done + acts;
        if undisturbed(inputs) {
            assert(undisturbed(inputs.drop_last())) by {
                assert forall|i: int| 0 <= i < inputs.len() - 1 implies !((
                #[trigger] inputs.drop_last()[i]) is Stopped) by {
                    assert(inputs.drop_last()[i] == inputs[i]);
                }
            }
            assert(!(inputs[inputs.len() - 1] is Stopped));
        }
        reveal_with_fuel(swallowed, 4);
        reveal_with_fuel(peer_entered, 4);
        if acts.len() == 0 {
            assert(all =~= done);
        } else if acts.len() == 1 {
            assert(all.drop_last() =~= done);
        } else if acts.len() == 2 {
            assert(all.drop_last().drop_last() =~= done);
            assert(all.last() == acts[1]);
            assert(all.drop_last().last() == acts[0]);
        } else {
            assert(all.drop_last().drop_last().drop_last() =~= done);
            assert(all.last() == acts[2]);
            assert(all.drop_last().last() == acts[1]);
            assert(all.drop_last().drop_last().last() == acts[0]);
        }
    }
}

/// After any run what waits to be sent is the cursor's position, and nothing waits
/// while control is local.
pub proof fn nothing_stale_is_sent(remote: Remote, inputs: Seq<Input>)
    ensures
        pending_is_current(run(starting(remote), inputs).0),
    decreases inputs.len(),
{
    if inputs.len() > 0 {
        nothing_stale_is_sent(remote, inputs.drop_last());
    }
}

/// What goes to the peer.
pub ghost enum Sent {
    Control(Control),
    Input(Event),
    /// A position, in a datagram.
    Position(Point),
}

/// What goes to the peer by an action.
pub open spec fn sent_by(act: Action) -> Seq<Sent> {
    match act {
        Action::SendControl(c) => seq![Sent::Control(c)],
        Action::SendInput(ev) => seq![Sent::Input(ev)],
        _ => Seq::empty(),
    }
}

/// What goes to the peer by these actions. The clipboard aside: it belongs to neither
/// screen.
pub open spec fn sent_by_all(acts: Seq<Action>) -> Seq<Sent>
    decreases acts.len(),
{
    if acts.len() == 0 {
        Seq::empty()
    } else {
        sent_by_all(acts.drop_last()) + sent_by(acts.last())
    }
}

/// What goes to the peer about an input: what was done about it and, at a tick, the
/// position that waits.
pub open spec fn sent_about(c: Controller, input: Input) -> Seq<Sent> {
    match (input, c.pending) {
        (Input::Tick, Some(p)) => seq![Sent::Position(p)],
        _ => sent_by_all(told(c, input).1),
    }
}

/// Everything that goes to the peer in a run.
pub open spec fn sent_in(c: Controller, inputs: Seq<Input>) -> Seq<Sent>
    decreases inputs.len(),
{
    if inputs.len() == 0 {
        Seq::empty()
    } else {
        sent_in(c, inputs.drop_last()) + sent_about(run(c, inputs.drop_last()).0, inputs.last())
    }
}

/// Whether the peer is in control after it was sent this: as the last `Enter` or
/// `Leave` says.
pub open spec fn in_control(sent: Seq<Sent>) -> bool
    decreases sent.len(),
{
    if sent.len() == 0 {
        false
    } else {
        match sent.last() {
            Sent::Control(Control::Enter { .. }) => true,
            Sent::Control(Control::Leave) => false,
            _ => in_control(sent.drop_last()),
        }
    }
}

/// This may be sent to a peer that is, or is not, in control: `Enter` to one that is
/// not, and everything else to one that is. Of the input, only keys, buttons and
/// scrolling are sent.
pub open spec fn in_order(entered: bool, it: Sent) -> bool {
    match it {
        Sent::Control(Control::Enter { .. }) => !entered,
        Sent::Control(Control::Leave) => entered,
        Sent::Input(ev) => entered && (ev is Key || ev is Button || ev is Scroll),
        Sent::Position(_) => entered,
    }
}

proof fn sent_about_is_in_order(c: Controller, input: Input)
    requires
        pending_is_current(c),
    ensures
        ({
            let sent = sent_about(c, input);
            let entered = c.target == Target::Remote;
            &&& sent.len() <= 1
            &&& sent.len() == 1 ==> in_order(entered, sent[0])
            &&& told(c, input).0.target == Target::Remote <==> if sent.len() == 1 && sent[0]
                is Control {
                in_control(sent)
            } else {
                entered
            }
        }),
{
    let acts = told(c, input).1;
    reveal_with_fuel(sent_by_all, 4);
    reveal_with_fuel(in_control, 2);
    if acts.len() == 3 {
        assert(acts.drop_last().drop_last().drop_last() =~= Seq::empty());
    } else if acts.len() == 2 {
        assert(acts.drop_last().drop_last() =~= Seq::empty());
    } else if acts.len() == 1 {
        assert(acts.drop_last() =~= Seq::empty());
    }
}

/// Over any run `Enter` and `Leave` alternate in what goes to the peer, `Enter` first,
/// and all input and every position come after an `Enter` with no `Leave` between. The
/// peer has been put in control exactly if control is remote.
pub proof fn enter_and_leave_alternate(remote: Remote, inputs: Seq<Input>)
    ensures
        ({
            let sent = sent_in(starting(remote), inputs);
            &&& forall|i: int|
                0 <= i < sent.len() ==> in_order(in_control(sent.take(i)), #[trigger] sent[i])
            &&& in_control(sent) == (run(starting(remote), inputs).0.target == Target::Remote)
        }),
    decreases inputs.len(),
{
    if inputs.len() > 0 {
        let past = inputs.drop_last();
        let before = sent_in(starting(remote), past);
        let c = run(starting(remote), past).0;
        let more = sent_about(c, inputs.last());
        let sent = before + more;
        enter_and_leave_alternate(remote, past);
        nothing_stale_is_sent(remote, past);
        sent_about_is_in_order(c, inputs.last());
        assert forall|i: int| 0 <= i < sent.len() implies in_order(
            in_control(sent.take(i)),
            #[trigger] sent[i],
        ) by {
            if i < before.len() {
                assert(sent.take(i) =~= before.take(i));
                assert(sent[i] == before[i]);
            } else {
                assert(sent.take(i) =~= before);
                assert(sent[i] == more[0]);
            }
        }
        if more.len() == 1 {
            assert(sent.drop_last() =~= before);
            assert(sent.last() == more[0]);
            assert(more.last() == more[0]);
        } else {
            assert(sent =~= before);
        }
    }
}

/// Whether local input is swallowed after these actions about the connection, where it
/// was or was not before them.
pub open spec fn swallowed_after(before: bool, acts: Seq<LinkAction>) -> bool
    decreases acts.len(),
{
    if acts.len() == 0 {
        before
    } else {
        match acts.last() {
            LinkAction::Grab(grab) => grab,
            _ => swallowed_after(before, acts.drop_last()),
        }
    }
}

/// However a connection ends, and whatever was going on, local input is not swallowed
/// any more; the next connection starts with control at the local screen.
pub proof fn lost_connection_frees_input(
    remote: Remote,
    inputs: Seq<Input>,
    next: Remote,
)
    ensures
        !swallowed_after(
            swallowed(run(starting(remote), inputs).1),
            link_reaction(LinkEvent::Lost),
        ),
        starting(next).target == Target::Local,
{
    let acts = link_reaction(LinkEvent::Lost);
    reveal_with_fuel(swallowed_after, 3);
    assert(acts.drop_last().last() == LinkAction::Grab(false));
}

/// The modifiers that are down after these inputs.
pub open spec fn modifiers_of(inputs: Seq<Input>) -> Modifiers
    decreases inputs.len(),
{
    if inputs.len() == 0 {
        Modifiers(0)
    } else {
        let before = modifiers_of(inputs.drop_last());
        match inputs.last() {
            Input::Captured(Event::Key { usage, dir }, _) => event::modifiers_after(
                before,
                usage,
                dir,
            ),
            _ => before,
        }
    }
}

/// The modifiers are followed on either screen, so that those sent with a crossing
/// are the ones that are down.
pub proof fn modifiers_are_followed_everywhere(remote: Remote, inputs: Seq<Input>)
    ensures
        run(starting(remote), inputs).0.mods == modifiers_of(inputs),
    decreases inputs.len(),
{
    if inputs.len() > 0 {
        modifiers_are_followed_everywhere(remote, inputs.drop_last());
    }
}

/// A displacement to a point on the remote screen makes exactly that point the cursor
/// and the position to send. Off the screen each coordinate is the nearest one on it,
/// by itself: the width bounds the one and the height the other.
pub proof fn cursor_is_the_nearest_point(c: Controller, ev: Event, to: Point)
    requires
        c.target == Target::Remote,
        ev is MotionRel,
        !left(c, to),
        c.remote.has_area(),
    ensures
        ({
            let zero = Coord { bits: coord::ZERO };
            let (w, h) = (c.remote.width, c.remote.height);
            let next = step(c, ev, to).0;
            let p = next.cursor;
            &&& next.pending == Some(p)
            &&& zero.le(to.x) && to.x.le(w) ==> p.x == to.x
            &&& to.x.lt(zero) ==> p.x == zero
            &&& w.lt(to.x) ==> p.x == w
            &&& zero.le(to.y) && to.y.le(h) ==> p.y == to.y
            &&& to.y.lt(zero) ==> p.y == zero
            &&& h.lt(to.y) ==> p.y == h
        }),
{
}

/// At the edge the peer is told where the cursor enters and which modifiers are down,
/// then local input is swallowed, then the clipboard is offered, each once. The cursor
/// is put where the point of entry is, and nothing waits to be sent that did not
/// before.
pub proof fn crossing_tells_the_peer(c: Controller, x: Coord, y: Coord, to: Point)
    requires
        c.target == Target::Local,
    ensures
        ({
            let (next, acts) = step(c, Event::MotionAbs { x, y }, to);
            match config::entry(c.remote.side, x, y) {
                Some((ex, ey)) => {
                    &&& next.target == Target::Remote
                    &&& next.cursor == to
                    &&& next.pending == c.pending
                    &&& acts.len() == 3
                    &&& acts[0] matches Action::SendControl(Control::Enter { x: sx, y: sy, mods })
                    &&& sx == ex && sy == ey && mods == c.mods
                    &&& acts[1] == Action::Grab(true)
                    &&& acts[2] == Action::OfferClipboard
                },
                None => next == c && acts.len() == 0,
            }
        }),
{
}

/// What the user does at the local screen, short of crossing, leaves the machine as it
/// was but for the modifiers; a position reported while control is remote does nothing
/// at all.
pub proof fn other_events_change_nothing(c: Controller, ev: Event, to: Point)
    ensures
        ({
            let (next, acts) = step(c, ev, to);
            &&& c.target == Target::Local && !(ev is MotionAbs) ==> acts.len() == 0
                && next.target == c.target && next.cursor == c.cursor && next.pending == c.pending
            &&& c.target == Target::Remote && ev is MotionAbs ==> acts.len() == 0 && next == c
            &&& !(ev is Key) ==> next.mods == c.mods
            &&& next.remote == c.remote
        }),
{
}

/// A position waits to be sent after every displacement that does not lead home, and
/// after no other event that was without one.
pub proof fn every_displacement_is_sent(c: Controller, ev: Event, to: Point)
    ensures
        ({
            let next = step(c, ev, to).0;
            &&& c.target == Target::Remote && ev is MotionRel && !left(c, to) ==> next.pending
                == Some(next.cursor) && next.target == Target::Remote
            &&& !(ev is MotionRel) ==> next.pending == c.pending
        }),
{
}

/// A new connection starts with control at the local screen, no modifier down and
/// nothing to send.
pub proof fn fresh_start(remote: Remote)
    ensures
        starting(remote).remote == remote,
        starting(remote).target == Target::Local,
        starting(remote).mods.0 == 0,
        starting(remote).pending is None,
        starting(remote).cursor.x.is_zero(),
        starting(remote).cursor.y.is_zero(),
{
}

/// The escape chord sends nothing but `Leave`, and leaves the cursor where it was with
/// nothing to send.
pub proof fn escape_does_no_more(c: Controller)
    ensures
        escaped(c).1.len() == (if c.target == Target::Remote {
            1int
        } else {
            0int
        }),
        escaped(c).0.cursor == c.cursor,
        escaped(c).0.remote == c.remote,
        c.target == Target::Remote ==> escaped(c).0.pending is None,
        c.target == Target::Local ==> escaped(c).0 == c,
{
}

/// Whatever becomes of the connection, the controller goes on: it drives one that it
/// has, and tries again for one that it has not, at once after a loss and after a wait
/// otherwise.
pub proof fn controller_never_gives_up(ev: LinkEvent)
    ensures
        ev == LinkEvent::Connected ==> link_reaction(ev).len() == 1 && link_reaction(ev)[0]
            == LinkAction::Drive,
        ev != LinkEvent::Connected ==> link_reaction(ev).len() == 2 && link_reaction(ev)[1]
            == LinkAction::Connect,
        ev == LinkEvent::Failed ==> link_reaction(ev)[0] == LinkAction::Wait(2),
        ev == LinkEvent::Lost ==> link_reaction(ev)[0] == LinkAction::Grab(false),
{
}

/// Going home tells the peer, then stops swallowing local input, and does no more; the
/// cursor is where the displacement took it, and nothing waits to be sent.
pub proof fn going_home_does_no_more(c: Controller, ev: Event, to: Point)
    requires
        c.target == Target::Remote,
        ev is MotionRel,
        left(c, to),
    ensures
        ({
            let (next, acts) = step(c, ev, to);
            &&& acts.len() == 2
            &&& acts[0] == Action::SendControl(Control::Leave)
            &&& acts[1] == Action::Grab(false)
            &&& next.target == Target::Local
            &&& next.cursor == to
            &&& next.pending is None
            &&& next.mods == c.mods
            &&& next.remote == c.remote
        }),
{
}

/// While control is remote a displacement that stays there sends nothing by itself, and a
/// key moves nothing but the modifiers.
pub proof fn remote_events_move_only_their_own(c: Controller, ev: Event, to: Point)
    requires
        c.target == Target::Remote,
    ensures
        ({
            let (next, acts) = step(c, ev, to);
            &&& ev is MotionRel && !left(c, to) ==> acts.len() == 0
            &&& !(ev is MotionRel) ==> next.cursor == c.cursor && next.target == c.target
            &&& ev matches Event::Key { usage, dir } ==> next.mods == event::modifiers_after(
                c.mods,
                usage,
                dir,
            )
        }),
{
}

} // verus!
