//! What goes over a connection: one stream for each message, and datagrams for the
//! cursor's position.

use crate::coord::Coord;
use crate::event::Control;
use crate::proto;
use crate::proto::{Motion, Reliable};
use crate::wire;
use vstd::prelude::*;

verus! {

/// The controller keeps an idle connection alive by a ping after so many seconds, which
/// is before it is given up.
pub const KEEP_ALIVE_SECS: u64 = 5;

/// A connection is given up when nothing has come in for so many seconds.
pub const MAX_IDLE_SECS: u64 = 30;

/// What a stream holds.
#[derive(Debug, Clone, Copy, PartialEq, Eq, Structural)]
pub enum StreamKind {
    /// One message.
    Message,
    /// A batch of files.
    Files,
}

/// What a stream with this tag at its head holds.
pub open spec fn kind_of(tag: u8) -> Option<StreamKind> {
    if tag == proto::STREAM_TAG_MSG {
        Some(StreamKind::Message)
    } else if tag == proto::STREAM_TAG_FILES {
        Some(StreamKind::Files)
    } else {
        None
    }
}

/// What a stream with this tag at its head holds. One with another tag is ignored.
pub fn stream_kind(tag: u8) -> (r: Option<StreamKind>)
    ensures
        r == kind_of(tag),
{
    if tag == proto::STREAM_TAG_MSG {
        Some(StreamKind::Message)
    } else if tag == proto::STREAM_TAG_FILES {
        Some(StreamKind::Files)
    } else {
        None
    }
}

/// Everything that goes over the stream of a message.
pub fn message_stream(msg: &Reliable) -> (r: Vec<u8>)
    ensures
        r@ == seq![proto::STREAM_TAG_MSG] + proto::reliable_bytes(msg@),
{
    let mut out: Vec<u8> = Vec::new();
    out.push(proto::STREAM_TAG_MSG);
    wire::extend(&mut out, proto::encode_reliable(msg));
    assert(out@ =~= seq![proto::STREAM_TAG_MSG] + proto::reliable_bytes(msg@));
    out
}

/// The message that a stream of this kind holds behind its tag.
pub open spec fn message_in(body: Seq<u8>) -> Option<proto::ReliableView> {
    if body.len() > proto::MAX_FRAME {
        None
    } else {
        match proto::whole(proto::take_reliable(body)) {
            Ok(m) => Some(m),
            Err(_) => None,
        }
    }
}

/// The message that a stream holds behind its tag. A stream that is too long, or holds
/// no message, is ignored.
pub fn received_message(body: &[u8]) -> (r: Option<Reliable>)
    ensures
        match r {
            Some(m) => message_in(body@) == Some(m@),
            None => message_in(body@) is None,
        },
{
    if body.len() > proto::MAX_FRAME {
        return None;
    }
    match proto::decode_reliable(body) {
        Ok(m) => Some(m),
        Err(_) => None,
    }
}

/// Every message whose text is within the limit of the clipboard arrives as it was
/// sent.
pub proof fn message_arrives(msg: proto::ReliableView)
    requires
        msg matches proto::ReliableView::Clipboard(t) ==> vstd::utf8::encode_utf8(t).len()
            <= proto::CLIPBOARD_MAX,
    ensures
        ({
            let sent = seq![proto::STREAM_TAG_MSG] + proto::reliable_bytes(msg);
            kind_of(sent[0]) == Some(StreamKind::Message) && message_in(sent.skip(1)) == Some(msg)
        }),
{
    let sent = seq![proto::STREAM_TAG_MSG] + proto::reliable_bytes(msg);
    assert(sent.skip(1) =~= proto::reliable_bytes(msg));
    proto::message_fits_frame(msg);
    proto::reliable_reads_back(msg, Seq::empty());
}

/// Numbers the positions that are sent, from 1.
#[derive(Debug, Clone, Copy, PartialEq, Eq, Structural)]
pub struct MotionSender {
    pub seq: u64,
}

impl MotionSender {
    /// Nothing has been sent.
    pub fn new() -> (r: MotionSender)
        ensures
            r.seq == 0,
    {
        MotionSender { seq: 0 }
    }

    /// The datagram for this position, normalised to the remote screen.
    pub fn send_motion(&mut self, x: Coord, y: Coord) -> (r: Vec<u8>)
        requires
            old(self).seq < u64::MAX,
        ensures
            final(self).seq == old(self).seq + 1,
            r@ == proto::motion_bytes(Motion { seq: (old(self).seq + 1) as u64, x, y }),
    {
        self.seq = self.seq + 1;
        proto::encode_motion(&Motion { seq: self.seq, x, y })
    }
}

/// Drops the positions that are out of date: datagrams overtake each other, and an old
/// one would make the cursor jump back.
#[derive(Debug, Clone, Copy, PartialEq, Eq, Structural)]
pub struct MotionFilter {
    /// The number of the newest position so far.
    pub last_seq: u64,
}

/// The position in a datagram, unless it is out of date or there is none in it.
pub open spec fn fresh_motion(last_seq: u64, datagram: Seq<u8>) -> Option<Motion> {
    match proto::whole(proto::take_motion(datagram)) {
        Ok(m) => if m.seq > last_seq {
            Some(m)
        } else {
            None
        },
        Err(_) => None,
    }
}

impl MotionFilter {
    /// No position yet.
    pub fn new() -> (r: MotionFilter)
        ensures
            r.last_seq == 0,
    {
        MotionFilter { last_seq: 0 }
    }

    /// A datagram has come in.
    pub fn accept(&mut self, datagram: &[u8]) -> (r: Option<Motion>)
        ensures
            r == fresh_motion(old(self).last_seq, datagram@),
            final(self).last_seq == (match r {
                Some(m) => m.seq,
                None => old(self).last_seq,
            }),
    {
        match proto::decode_motion(datagram) {
            Ok(m) => {
                if m.seq <= self.last_seq {
                    return None;
                }
                self.last_seq = m.seq;
                Some(m)
            },
            Err(_) => None,
        }
    }
}

/// The positions that pass the filter, one after the other, and the number of the
/// newest.
pub open spec fn passed(last_seq: u64, datagrams: Seq<Seq<u8>>) -> (u64, Seq<Motion>)
    decreases datagrams.len(),
{
    if datagrams.len() == 0 {
        (last_seq, Seq::empty())
    } else {
        let (last, out) = passed(last_seq, datagrams.drop_last());
        match fresh_motion(last, datagrams.last()) {
            Some(m) => (m.seq, out.push(m)),
            None => (last, out),
        }
    }
}

/// Whatever comes in, and in whatever order, the positions that pass have rising
/// numbers: the cursor never goes back to an older one.
pub proof fn positions_never_go_back(last_seq: u64, datagrams: Seq<Seq<u8>>)
    ensures
        ({
            let (last, out) = passed(last_seq, datagrams);
            &&& forall|i: int, j: int| 0 <= i < j < out.len() ==> out[i].seq < out[j].seq
            &&& forall|i: int| 0 <= i < out.len() ==> last_seq < (#[trigger] out[i]).seq <= last
            &&& last_seq <= last
        }),
    decreases datagrams.len(),
{
    if datagrams.len() > 0 {
        positions_never_go_back(last_seq, datagrams.drop_last());
    }
}

/// A position that is newer than all before it passes as it was sent.
pub proof fn newer_position_passes(last_seq: u64, m: Motion)
    ensures
        m.seq > last_seq ==> fresh_motion(last_seq, proto::motion_bytes(m)) == Some(m),
        m.seq <= last_seq ==> fresh_motion(last_seq, proto::motion_bytes(m)) is None,
{
    proto::motion_reads_back(m, Seq::empty());
}

/// The datagrams for these positions.
pub open spec fn datagrams(ms: Seq<Motion>) -> Seq<Seq<u8>> {
    ms.map_values(|m: Motion| proto::motion_bytes(m))
}

/// Positions that arrive in the order in which they were sent all pass, as they were
/// sent.
pub proof fn positions_in_order_all_pass(ms: Seq<Motion>)
    requires
        forall|i: int| 0 <= i < ms.len() ==> (#[trigger] ms[i]).seq == i + 1,
    ensures
        passed(0, datagrams(ms)) == (ms.len() as u64, ms),
    decreases ms.len(),
{
    if ms.len() > 0 {
        let past = ms.drop_last();
        assert forall|i: int| 0 <= i < past.len() implies (#[trigger] past[i]).seq == i + 1 by {
            assert(past[i] == ms[i]);
        }
        positions_in_order_all_pass(past);
        assert(ms[ms.len() - 1].seq == ms.len());
        assert(datagrams(ms).drop_last() =~= datagrams(past));
        newer_position_passes(past.len() as u64, ms.last());
        assert(past.push(ms.last()) =~= ms);
    } else {
        assert(ms =~= Seq::empty());
    }
}

/// A stream is told by its tag: 0 for a message and 1 for files, and there is no other.
pub proof fn streams_by_tag(tag: u8)
    ensures
        kind_of(tag) == Some(StreamKind::Message) <==> tag == 0,
        kind_of(tag) == Some(StreamKind::Files) <==> tag == 1,
        kind_of(tag) is None <==> tag > 1,
{
}

/// A message is taken whatever follows it, up to the longest frame; a longer stream is
/// ignored, and so is one that ends inside its message.
pub proof fn message_is_taken_within_the_frame(m: proto::ReliableView, rest: Seq<u8>, k: int)
    requires
        proto::representable(m),
    ensures
        ({
            let bytes = proto::reliable_bytes(m);
            &&& bytes.len() + rest.len() <= 0x10_0000 + 64 ==> message_in(bytes + rest) == Some(m)
            &&& bytes.len() + rest.len() > 0x10_0000 + 64 ==> message_in(bytes + rest) is None
            &&& 0 <= k < bytes.len() ==> message_in(bytes.take(k)) is None
        }),
{
    proto::reliable_reads_back(m, rest);
    if 0 <= k < proto::reliable_bytes(m).len() {
        proto::incomplete_is_refused(
            m,
            Motion { seq: 0, x: Coord { bits: 0 }, y: Coord { bits: 0 } },
            k,
        );
    }
}

/// A position passes whatever follows it in the datagram, if it is newer; one of which a
/// part is missing does not.
pub proof fn position_passes_if_complete(last_seq: u64, m: Motion, rest: Seq<u8>, k: int)
    ensures
        ({
            let bytes = proto::motion_bytes(m);
            &&& fresh_motion(last_seq, bytes + rest) == (if last_seq < m.seq {
                Some(m)
            } else {
                None
            })
            &&& 0 <= k < bytes.len() ==> fresh_motion(last_seq, bytes.take(k)) is None
        }),
{
    proto::motion_reads_back(m, rest);
    if 0 <= k < proto::motion_bytes(m).len() {
        proto::incomplete_is_refused(proto::ReliableView::Control(Control::Leave), m, k);
    }
}

/// An idle connection is kept alive several times before it would be given up.
pub proof fn idle_is_kept_alive()
    ensures
        KEEP_ALIVE_SECS == 5,
        MAX_IDLE_SECS == 30,
{
}

} // verus!
