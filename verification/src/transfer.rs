//! Streaming the files of a clipboard to the peer.
//!
//! A stream of files is a tag, the length of a header in four bytes, the header with
//! the name and size of every file, and the contents of the files one after the
//! other. Nothing is held in memory as a whole, and exactly as many bytes are copied
//! for a file as the header says, even if the file grows or shrinks meanwhile.

use crate::proto;
use crate::proto::{FileMeta, FilesHeader};
use crate::wire;
use crate::wire::DecodeError;
use vstd::prelude::*;

verus! {

/// How much of a file is copied at a time.
pub const FILE_CHUNK: usize = 64 * 1024;

/// Why files are not sent.
#[derive(Debug, Clone, Copy, PartialEq, Eq, Structural)]
pub enum SendError {
    /// A folder, or something else that is no regular file.
    NotAFile,
    /// The name is not Unicode.
    BadName,
    /// All the files together are larger than `FILES_MAX_TOTAL`.
    TooLarge,
}

/// Why files are not received.
#[derive(Debug, Clone, Copy, PartialEq, Eq, Structural)]
pub enum ReceiveError {
    /// The header would be longer than a message may be.
    LongHeader,
    /// The header is none.
    BadHeader(DecodeError),
    /// All the files together are larger than `FILES_MAX_TOTAL`.
    TooLarge,
}

/// What the header says of a file, from what the file system says of it.
pub fn describe(is_file: bool, name: Option<String>, size: u64) -> (r: Result<FileMeta, SendError>)
    ensures
        match r {
            Ok(m) => is_file && (name matches Some(n) && m@ == (proto::FileMetaView {
                name: n@,
                size,
            })),
            Err(SendError::NotAFile) => !is_file,
            Err(e) => e == SendError::BadName && is_file && name is None,
        },
{
    if !is_file {
        return Err(SendError::NotAFile);
    }
    match name {
        Some(name) => Ok(FileMeta { name, size }),
        None => Err(SendError::BadName),
    }
}

/// The size of all the files together.
pub open spec fn total(files: Seq<proto::FileMetaView>) -> nat
    decreases files.len(),
{
    if files.len() == 0 {
        0
    } else {
        total(files.drop_last()) + files.last().size as nat
    }
}

proof fn total_grows(files: Seq<proto::FileMetaView>, n: int)
    requires
        0 <= n <= files.len(),
    ensures
        total(files.take(n)) <= total(files),
    decreases files.len() - n,
{
    if n < files.len() {
        total_grows(files, n + 1);
        assert(files.take(n + 1).drop_last() =~= files.take(n));
    } else {
        assert(files.take(n) =~= files);
    }
}

/// Whether all the files together are within the limit.
fn within_limit(header: &FilesHeader) -> (r: bool)
    ensures
        r == (total(header@) <= proto::FILES_MAX_TOTAL),
{
    let ghost all = header@;
    let mut sum: u64 = 0;
    let mut i: usize = 0;
    assert(all.take(0) =~= Seq::empty());
    while i < header.files.len()
        invariant
            i <= header.files@.len(),
            all == header@,
            sum == total(all.take(i as int)),
            sum <= proto::FILES_MAX_TOTAL,
        decreases header.files@.len() - i,
    {
        proof {
            assert(all.take(i + 1).drop_last() =~= all.take(i as int));
            assert(all[i as int] == header.files@[i as int]@);
            total_grows(all, i + 1);
        }
        if header.files[i].size > proto::FILES_MAX_TOTAL - sum {
            return false;
        }
        sum = sum + header.files[i].size;
        i = i + 1;
    }
    assert(all.take(i as int) =~= all);
    true
}

/// What a stream of files begins with: its tag, and the header behind its length.
pub open spec fn preamble(files: Seq<proto::FileMetaView>) -> Seq<u8> {
    let header = proto::header_bytes(files);
    seq![proto::STREAM_TAG_FILES] + wire::le(header.len(), 4) + header
}

/// What a stream with these files begins with.
pub fn begin(header: &FilesHeader) -> (r: Result<Vec<u8>, SendError>)
    ensures
        match r {
            Ok(bytes) => total(header@) <= proto::FILES_MAX_TOTAL && bytes@ == preamble(header@),
            Err(e) => e == SendError::TooLarge && total(header@) > proto::FILES_MAX_TOTAL,
        },
{
    if !within_limit(header) {
        return Err(SendError::TooLarge);
    }
    let mut out: Vec<u8> = Vec::new();
    out.push(proto::STREAM_TAG_FILES);
    let bytes = proto::encode_files_header(header);
    wire::extend(&mut out, wire::put_le(bytes.len() as u64, 4));
    wire::extend(&mut out, bytes);
    assert(out@ =~= preamble(header@));
    Ok(out)
}

/// The length of the header, from the four bytes before it.
pub fn header_length(bytes: &[u8; 4]) -> (r: Result<usize, ReceiveError>)
    ensures
        match r {
            Ok(n) => n == wire::le_value(bytes@) && n <= proto::MAX_FRAME,
            Err(e) => e == ReceiveError::LongHeader && wire::le_value(bytes@) > proto::MAX_FRAME,
        },
{
    let n: u64 = wire::take_le(bytes.as_slice());
    if n > proto::MAX_FRAME as u64 {
        Err(ReceiveError::LongHeader)
    } else {
        Ok(n as usize)
    }
}

/// The header in these bytes.
pub fn read_header(bytes: &[u8]) -> (r: Result<FilesHeader, ReceiveError>)
    ensures
        match proto::whole(proto::take_header(bytes@)) {
            Ok(files) => if total(files) <= proto::FILES_MAX_TOTAL {
                r matches Ok(h) && h@ == files
            } else {
                r matches Err(ReceiveError::TooLarge)
            },
            Err(e) => r matches Err(ReceiveError::BadHeader(b)) && b == e,
        },
{
    match proto::decode_files_header(bytes) {
        Ok(header) => {
            if within_limit(&header) {
                Ok(header)
            } else {
                Err(ReceiveError::TooLarge)
            }
        },
        Err(e) => Err(ReceiveError::BadHeader(e)),
    }
}

/// A batch that is within the limits is announced to the peer as it is.
pub proof fn announcement_arrives(files: Seq<proto::FileMetaView>)
    requires
        proto::header_bytes(files).len() <= proto::MAX_FRAME,
        proto::header_representable(files),
    ensures
        ({
            let sent = preamble(files);
            let length = wire::le_value(sent.subrange(1, 5));
            &&& sent[0] == proto::STREAM_TAG_FILES
            &&& length == proto::header_bytes(files).len()
            &&& sent.len() == 5 + length
            &&& proto::whole(proto::take_header(sent.skip(5))) == Ok::<
                Seq<proto::FileMetaView>,
                DecodeError,
            >(files)
        }),
{
    let header = proto::header_bytes(files);
    let sent = preamble(files);
    vstd::arithmetic::power2::lemma2_to64();
    wire::le_reads_back(header.len(), 4);
    assert(sent.subrange(1, 5) =~= wire::le(header.len(), 4));
    assert(sent.skip(5) =~= header);
    proto::header_reads_back(files, Seq::empty());
}

/// What to do next with a batch of files.
#[derive(Debug, Clone, Copy, PartialEq, Eq, Structural)]
pub enum Step {
    /// Open the file with this index: to read it, or to write it.
    Open(usize),
    /// Copy up to this many bytes of the file that is open.
    Copy(usize),
    /// Close the file with this index: it is complete.
    Close(usize),
    /// Nothing: every file is complete.
    Done,
}

/// The file, or the stream, has ended before all of the file was copied.
#[derive(Debug, Clone, Copy, PartialEq, Eq, Structural)]
pub struct EndedEarly;

/// A batch of files being copied.
pub struct Transfer {
    sizes: Vec<u64>,
    at: usize,
    open: bool,
    left: u64,
}

/// The view of a `Transfer`.
pub ghost struct Progress {
    /// The size of each file.
    pub sizes: Seq<u64>,
    /// The file that it has come to.
    pub at: int,
    /// That file is open.
    pub open: bool,
    /// What is left to copy of that file, once it is open.
    pub left: int,
}

impl View for Transfer {
    type V = Progress;

    closed spec fn view(&self) -> Progress {
        Progress {
            sizes: self.sizes@,
            at: self.at as int,
            open: self.open,
            left: self.left as int,
        }
    }
}

/// The state makes sense.
pub open spec fn sound(p: Progress) -> bool {
    &&& 0 <= p.at <= p.sizes.len()
    &&& p.open ==> p.at < p.sizes.len() && 0 <= p.left <= p.sizes[p.at]
}

/// What to do next.
pub open spec fn next_step(p: Progress) -> Step {
    if p.at >= p.sizes.len() {
        Step::Done
    } else if !p.open {
        Step::Open(p.at as usize)
    } else if p.left > 0 {
        Step::Copy(if p.left < FILE_CHUNK {
            p.left as usize
        } else {
            FILE_CHUNK
        })
    } else {
        Step::Close(p.at as usize)
    }
}

impl Transfer {
    #[verifier::type_invariant]
    spec fn inv(&self) -> bool {
        sound(self@)
    }

    /// Begins with the first of these files.
    pub fn new(header: &FilesHeader) -> (r: Transfer)
        ensures
            r@ == starting(header@),
    {
        let mut sizes: Vec<u64> = Vec::new();
        let mut i: usize = 0;
        while i < header.files.len()
            invariant
                i <= header.files@.len(),
                sizes@ == sizes_of(header@).take(i as int),
            decreases header.files@.len() - i,
        {
            sizes.push(header.files[i].size);
            i = i + 1;
            assert(sizes@ =~= sizes_of(header@).take(i as int));
        }
        assert(sizes@ =~= sizes_of(header@));
        Transfer { sizes, at: 0, open: false, left: 0 }
    }

    /// What to do next.
    pub fn next(&self) -> (r: Step)
        ensures
            r == next_step(self@),
            sound(self@),
    {
        proof {
            use_type_invariant(self);
        }
        if self.at >= self.sizes.len() {
            Step::Done
        } else if !self.open {
            Step::Open(self.at)
        } else if self.left > 0 {
            if self.left < FILE_CHUNK as u64 {
                Step::Copy(self.left as usize)
            } else {
                Step::Copy(FILE_CHUNK)
            }
        } else {
            Step::Close(self.at)
        }
    }

    /// The file has been opened.
    pub fn opened(&mut self)
        requires
            next_step(old(self)@) is Open,
        ensures
            final(self)@ == after_open(old(self)@),
    {
        proof {
            use_type_invariant(&*self);
        }
        let size: u64 = self.sizes[self.at];
        self.left = size;
        self.open = true;
    }

    /// So many bytes were copied; none, if there are no more.
    pub fn copied(&mut self, n: usize) -> (r: Result<(), EndedEarly>)
        requires
            next_step(old(self)@) matches Step::Copy(want) && n <= want,
        ensures
            r is Err <==> n == 0,
            final(self)@ == after_copy(old(self)@, n as int),
    {
        proof {
            use_type_invariant(&*self);
        }
        if n == 0 {
            return Err(EndedEarly);
        }
        self.left = self.left - n as u64;
        Ok(())
    }

    /// The file has been closed.
    pub fn closed(&mut self)
        requires
            next_step(old(self)@) is Close,
        ensures
            final(self)@ == after_close(old(self)@),
    {
        proof {
            use_type_invariant(&*self);
        }
        assert(self.at < self.sizes.len());
        self.open = false;
        self.at = self.at + 1;
    }
}

/// The sizes of these files.
pub open spec fn sizes_of(files: Seq<proto::FileMetaView>) -> Seq<u64> {
    files.map_values(|f: proto::FileMetaView| f.size)
}

/// Before the first of these files.
pub open spec fn starting(files: Seq<proto::FileMetaView>) -> Progress {
    Progress { sizes: sizes_of(files), at: 0, open: false, left: 0 }
}

/// The file has been opened.
pub open spec fn after_open(p: Progress) -> Progress {
    Progress { open: true, left: p.sizes[p.at] as int, ..p }
}

/// So many bytes were copied.
pub open spec fn after_copy(p: Progress, n: int) -> Progress {
    Progress { left: p.left - n, ..p }
}

/// The file has been closed.
pub open spec fn after_close(p: Progress) -> Progress {
    Progress { open: false, at: p.at + 1, ..p }
}

/// The size of these files together.
pub open spec fn sum(sizes: Seq<u64>) -> nat
    decreases sizes.len(),
{
    if sizes.len() == 0 {
        0
    } else {
        sizes[0] as nat + sum(sizes.skip(1))
    }
}

/// How much is left to copy of the whole batch.
pub open spec fn outstanding(p: Progress) -> int {
    if p.open {
        p.left + sum(p.sizes.skip(p.at + 1))
    } else {
        sum(p.sizes.skip(p.at)) as int
    }
}

/// What is outstanding goes down by what is copied, and by nothing else, until nothing
/// is: so exactly the announced bytes are copied, and a file is closed exactly when
/// all of it has been.
pub proof fn exactly_the_announced_bytes(p: Progress, n: int)
    requires
        sound(p),
    ensures
        next_step(p) is Open ==> outstanding(after_open(p)) == outstanding(p) && sound(
            after_open(p),
        ),
        next_step(p) matches Step::Copy(want) ==> 0 < want && (0 <= n <= want ==> outstanding(
            after_copy(p, n),
        ) == outstanding(p) - n && sound(after_copy(p, n))),
        next_step(p) is Close ==> p.left == 0 && outstanding(after_close(p)) == outstanding(p)
            && sound(after_close(p)),
        next_step(p) is Done ==> outstanding(p) == 0,
        outstanding(p) >= 0,
{
    if p.at < p.sizes.len() {
        let rest = p.sizes.skip(p.at);
        assert(rest.skip(1) =~= p.sizes.skip(p.at + 1));
        assert(rest[0] == p.sizes[p.at]);
    } else {
        assert(p.sizes.skip(p.at) =~= Seq::empty());
    }
}

/// Every step that copies something, opens or closes a file brings the end nearer: a
/// transfer that is not cut short comes to an end.
pub open spec fn steps_left(p: Progress) -> int {
    outstanding(p) + 2 * (p.sizes.len() - p.at) - (if p.open {
        1int
    } else {
        0int
    })
}

/// A transfer comes to an end: each step leaves fewer, and none are left when it is
/// done.
pub proof fn transfer_ends(p: Progress, n: int)
    requires
        sound(p),
    ensures
        steps_left(p) >= 0,
        steps_left(p) == 0 ==> next_step(p) is Done,
        next_step(p) is Open ==> steps_left(after_open(p)) < steps_left(p),
        next_step(p) matches Step::Copy(want) ==> (0 < n <= want ==> steps_left(after_copy(p, n))
            < steps_left(p)),
        next_step(p) is Close ==> steps_left(after_close(p)) < steps_left(p),
{
    exactly_the_announced_bytes(p, n);
}

/// A whole batch is as many bytes as its header announces.
pub proof fn outstanding_at_the_start(files: Seq<proto::FileMetaView>)
    ensures
        outstanding(starting(files)) == total(files),
        sound(starting(files)),
{
    assert(sizes_of(files).skip(0) =~= sizes_of(files));
    sum_is_total(files);
}

proof fn sum_is_total(files: Seq<proto::FileMetaView>)
    ensures
        sum(sizes_of(files)) == total(files),
    decreases files.len(),
{
    if files.len() > 0 {
        sum_is_total(files.drop_last());
        let sizes = sizes_of(files);
        assert(sizes.drop_last() =~= sizes_of(files.drop_last()));
        sum_of_last(sizes);
    }
}

proof fn sum_of_last(sizes: Seq<u64>)
    requires
        sizes.len() > 0,
    ensures
        sum(sizes) == sum(sizes.drop_last()) + sizes.last(),
    decreases sizes.len(),
{
    if sizes.len() > 1 {
        sum_of_last(sizes.skip(1));
        assert(sizes.skip(1).drop_last() =~= sizes.drop_last().skip(1));
    } else {
        assert(sizes.skip(1) =~= Seq::empty());
        assert(sizes.drop_last() =~= Seq::empty());
    }
}

/// The next step is about the file that comes behind those that were closed, and asks
/// for no more than what is left of it and no more than a chunk, but for as much as both
/// allow.
pub proof fn step_is_about_the_next_file(p: Progress)
    requires
        sound(p),
        p.sizes.len() <= usize::MAX,
    ensures
        next_step(p) matches Step::Open(i) ==> i == p.at && i < p.sizes.len() && !p.open,
        next_step(p) matches Step::Close(i) ==> i == p.at && i < p.sizes.len() && p.open && p.left
            == 0,
        next_step(p) matches Step::Copy(want) ==> p.open && 0 < want <= p.left && want <= 65536 && (
        want == p.left || want == 65536),
        next_step(p) is Done <==> p.at == p.sizes.len(),
        p.at < p.sizes.len() ==> (next_step(p) is Open <==> !p.open),
{
}

/// What was done with a batch of files, one thing at a time.
pub ghost enum Deed {
    Opened(usize),
    Copied(usize),
    Closed(usize),
}

/// The state after one thing was done.
pub open spec fn after_deed(p: Progress, deed: Deed) -> Progress {
    match deed {
        Deed::Opened(_) => after_open(p),
        Deed::Copied(n) => after_copy(p, n as int),
        Deed::Closed(_) => after_close(p),
    }
}

/// It is what was to be done next.
pub open spec fn asked_for(p: Progress, deed: Deed) -> bool {
    match deed {
        Deed::Opened(i) => next_step(p) == Step::Open(i),
        Deed::Copied(n) => next_step(p) matches Step::Copy(want) && 0 < n <= want,
        Deed::Closed(i) => next_step(p) == Step::Close(i),
    }
}

/// The state after all of this was done with these files.
pub open spec fn after_deeds(files: Seq<proto::FileMetaView>, deeds: Seq<Deed>) -> Progress
    decreases deeds.len(),
{
    if deeds.len() == 0 {
        starting(files)
    } else {
        after_deed(after_deeds(files, deeds.drop_last()), deeds.last())
    }
}

/// Each of these things was to be done when it was done.
pub open spec fn run(files: Seq<proto::FileMetaView>, deeds: Seq<Deed>) -> bool
    decreases deeds.len(),
{
    deeds.len() > 0 ==> run(files, deeds.drop_last()) && asked_for(
        after_deeds(files, deeds.drop_last()),
        deeds.last(),
    )
}

/// The files that were opened, in order.
pub open spec fn opened_in(deeds: Seq<Deed>) -> Seq<usize>
    decreases deeds.len(),
{
    if deeds.len() == 0 {
        Seq::empty()
    } else {
        match deeds.last() {
            Deed::Opened(i) => opened_in(deeds.drop_last()).push(i),
            _ => opened_in(deeds.drop_last()),
        }
    }
}

/// The files that were closed, in order.
pub open spec fn closed_in(deeds: Seq<Deed>) -> Seq<usize>
    decreases deeds.len(),
{
    if deeds.len() == 0 {
        Seq::empty()
    } else {
        match deeds.last() {
            Deed::Closed(i) => closed_in(deeds.drop_last()).push(i),
            _ => closed_in(deeds.drop_last()),
        }
    }
}

/// How many bytes were copied since a file was opened last.
pub open spec fn copied_since(deeds: Seq<Deed>) -> nat
    decreases deeds.len(),
{
    if deeds.len() == 0 {
        0
    } else {
        match deeds.last() {
            Deed::Opened(_) => 0,
            Deed::Copied(n) => copied_since(deeds.drop_last()) + n as nat,
            Deed::Closed(_) => copied_since(deeds.drop_last()),
        }
    }
}

/// Over a whole run every file is opened once and closed once, in the order of the
/// header: the first to be opened is the first file, and so on, and a file is closed
/// before the next is opened. When it is closed, exactly its size has been copied since
/// it was opened. When there is nothing more to do, all of them are closed.
pub proof fn each_file_once_in_order(files: Seq<proto::FileMetaView>, deeds: Seq<Deed>)
    requires
        run(files, deeds),
        files.len() <= usize::MAX,
    ensures
        ({
            let opened = opened_in(deeds);
            let closed = closed_in(deeds);
            let p = after_deeds(files, deeds);
            &&& closed.len() <= opened.len() <= closed.len() + 1
            &&& opened.len() <= files.len()
            &&& forall|i: int| 0 <= i < opened.len() ==> #[trigger] opened[i] == i
            &&& forall|i: int| 0 <= i < closed.len() ==> #[trigger] closed[i] == i
            &&& next_step(p) matches Step::Open(k) ==> k == opened.len() && k == closed.len()
            &&& next_step(p) matches Step::Close(k) ==> k == closed.len() && opened.len() == k + 1
                && copied_since(deeds) == files[k as int].size
            &&& next_step(p) matches Step::Copy(want) ==> opened.len() == closed.len() + 1
                && copied_since(deeds) + want <= files[opened.len() - 1].size
            &&& next_step(p) is Done <==> closed.len() == files.len()
        }),
{
    each_file_once_so_far(files, deeds);
    let p = after_deeds(files, deeds);
    step_is_about_the_next_file(p);
}

proof fn each_file_once_so_far(files: Seq<proto::FileMetaView>, deeds: Seq<Deed>)
    requires
        run(files, deeds),
        files.len() <= usize::MAX,
    ensures
        ({
            let opened = opened_in(deeds);
            let closed = closed_in(deeds);
            let p = after_deeds(files, deeds);
            &&& sound(p)
            &&& p.sizes == sizes_of(files)
            &&& closed.len() == p.at
            &&& opened.len() == p.at + (if p.open {
                1int
            } else {
                0int
            })
            &&& forall|i: int| 0 <= i < opened.len() ==> #[trigger] opened[i] == i
            &&& forall|i: int| 0 <= i < closed.len() ==> #[trigger] closed[i] == i
            &&& p.open ==> copied_since(deeds) + p.left == files[p.at].size
        }),
    decreases deeds.len(),
{
    if deeds.len() > 0 {
        each_file_once_so_far(files, deeds.drop_last());
        step_is_about_the_next_file(after_deeds(files, deeds.drop_last()));
    }
}

/// The size of a batch adds up: none for no files, a file's own size for one, and the
/// sum for two batches together.
pub proof fn total_adds_up(
    one: proto::FileMetaView,
    some: Seq<proto::FileMetaView>,
    more: Seq<proto::FileMetaView>,
)
    ensures
        total(Seq::<proto::FileMetaView>::empty()) == 0,
        total(seq![one]) == one.size,
        total(some + more) == total(some) + total(more),
    decreases more.len(),
{
    reveal_with_fuel(total, 2);
    assert(seq![one].drop_last() =~= Seq::empty());
    if more.len() > 0 {
        total_adds_up(one, some, more.drop_last());
        assert((some + more).drop_last() =~= some + more.drop_last());
    } else {
        assert(some + more =~= some);
    }
}

/// A transfer begins with the first file, none of it copied, and with the sizes that
/// the header gives, in its order.
pub proof fn begins_with_the_first(files: Seq<proto::FileMetaView>)
    ensures
        ({
            let p = starting(files);
            &&& p.at == 0 && !p.open
            &&& p.sizes.len() == files.len()
            &&& forall|i: int| 0 <= i < files.len() ==> #[trigger] p.sizes[i] == files[i].size
        }),
{
}

} // verus!
