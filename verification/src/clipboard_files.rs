//! The file clipboard.
//!
//! "Copying a file" puts a path on the clipboard, which means nothing on another
//! machine: the contents are streamed over, stored, and the other clipboard is
//! pointed at what was stored.

use crate::clipboard;
use crate::wire;
use std::hash::DefaultHasher;
use std::hash::Hasher;
use vstd::prelude::*;
use vstd::std_specs::hash::*;

verus! {

/// When a file was modified last, since the Unix epoch. Seconds before the epoch count
/// down from the top.
#[derive(Debug, Clone, Copy, PartialEq, Eq, Structural)]
pub struct Modified {
    pub secs: u64,
    pub nanos: u32,
}

/// What is known of a file without reading it.
#[derive(Debug, Clone, Copy, PartialEq, Eq)]
pub struct FileState {
    pub len: u64,
    pub modified: Option<Modified>,
}

/// A file as its fingerprint sees it: its path, and its state where it could be had.
#[derive(Debug, Clone, PartialEq, Eq)]
pub struct FileStamp {
    pub path: Vec<u8>,
    pub state: Option<FileState>,
}

/// What is hashed for one file.
pub open spec fn stamp_writes(f: FileStamp) -> Seq<Seq<u8>> {
    let path = seq![f.path@, wire::bits_bytes(f.path@.len() as u64)];
    match f.state {
        None => path,
        Some(state) => {
            let size = path.push(wire::bits_bytes(state.len));
            match state.modified {
                None => size,
                Some(m) => size.push(wire::bits_bytes(m.secs)).push(wire::bits_bytes(m.nanos as u64)),
            }
        },
    }
}

/// What is hashed for these files, one after the other.
pub open spec fn stamps_writes(files: Seq<FileStamp>) -> Seq<Seq<u8>>
    decreases files.len(),
{
    if files.len() == 0 {
        Seq::empty()
    } else {
        stamps_writes(files.drop_last()) + stamp_writes(files.last())
    }
}

/// What is hashed for a batch of files: 2 comes first.
pub open spec fn files_writes(files: Seq<FileStamp>) -> Seq<Seq<u8>> {
    seq![seq![2u8]] + stamps_writes(files)
}

/// What is hashed for a text: 1 comes first.
pub open spec fn tagged_text_writes(text: Seq<char>) -> Seq<Seq<u8>> {
    seq![seq![1u8]] + clipboard::text_writes(text)
}

/// The fingerprint of a batch of files.
pub open spec fn files_print(files: Seq<FileStamp>) -> u64 {
    DefaultHasher::spec_finish(files_writes(files))
}

/// The fingerprint of a text.
pub open spec fn text_print(text: Seq<char>) -> u64 {
    DefaultHasher::spec_finish(tagged_text_writes(text))
}

/// A fingerprint of a batch of files: of their paths, sizes and modification times,
/// since hashing the contents costs too much.
pub fn fingerprint(files: &Vec<FileStamp>) -> (r: u64)
    ensures
        r == files_print(files@),
{
    let mut h = DefaultHasher::new();
    let tag: [u8; 1] = [2];
    h.write(tag.as_slice());
    assert(tag@ =~= seq![2u8]);
    assert(files@.take(0) =~= Seq::empty());
    assert(h@ =~= files_writes(files@.take(0)));
    let mut i: usize = 0;
    while i < files.len()
        invariant
            i <= files@.len(),
            h@ == files_writes(files@.take(i as int)),
        decreases files@.len() - i,
    {
        hash_stamp(&mut h, &files[i]);
        assert(files@.take(i + 1).drop_last() =~= files@.take(i as int));
        assert(h@ =~= files_writes(files@.take(i + 1)));
        i = i + 1;
    }
    assert(files@.take(i as int) =~= files@);
    h.finish()
}

fn hash_stamp(h: &mut DefaultHasher, f: &FileStamp)
    ensures
        final(h)@ == old(h)@ + stamp_writes(*f),
{
    h.write(f.path.as_slice());
    h.write(wire::put_le(f.path.len() as u64, 8).as_slice());
    if let Some(state) = f.state {
        h.write(wire::put_le(state.len, 8).as_slice());
        if let Some(m) = state.modified {
            h.write(wire::put_le(m.secs, 8).as_slice());
            h.write(wire::put_le(m.nanos as u64, 8).as_slice());
        }
    }
    assert(h@ =~= old(h)@ + stamp_writes(*f));
}

/// A fingerprint of a text, in a domain of its own beside that of files, so that both
/// can be remembered in one place.
pub fn fingerprint_text(text: &str) -> (r: u64)
    ensures
        r == text_print(text@),
{
    let mut h = DefaultHasher::new();
    let tag: [u8; 1] = [1];
    h.write(tag.as_slice());
    assert(tag@ =~= seq![1u8]);
    clipboard::hash_text(&mut h, text);
    assert(h@ =~= tagged_text_writes(text@));
    h.finish()
}

/// No text and no batch of files hash the same input.
pub proof fn domains_are_disjoint(text: Seq<char>, files: Seq<FileStamp>)
    ensures
        tagged_text_writes(text) != files_writes(files),
{
    assert(tagged_text_writes(text)[0][0] == 1);
    assert(files_writes(files)[0][0] == 2);
}

/// The paths that are regular files, in order: folders and paths that have vanished
/// are not synchronised. `None` if there is none.
pub fn keep_files<T>(paths: Vec<T>, is_file: &Vec<bool>) -> (r: Option<Vec<T>>)
    requires
        paths@.len() == is_file@.len(),
    ensures
        r matches Some(kept) ==> kept@ == picked(paths@, is_file@) && kept@.len() > 0,
        r is None ==> picked(paths@, is_file@).len() == 0,
{
    let ghost all = paths@;
    let mut paths = paths;
    let mut kept: Vec<T> = Vec::new();
    assert(picked(all, is_file@) =~= picked(paths@, is_file@.take(paths@.len() as int)) + kept@)
        by {
        assert(is_file@.take(paths@.len() as int) =~= is_file@);
    }
    while paths.len() > 0
        invariant
            paths@.len() <= is_file@.len(),
            picked(all, is_file@) == picked(paths@, is_file@.take(paths@.len() as int)) + kept@,
        decreases paths@.len(),
    {
        let ghost before = paths@;
        let ghost flags = is_file@.take(paths@.len() as int);
        let n: usize = paths.len() - 1;
        assert(flags.drop_last() =~= is_file@.take(n as int));
        if let Some(p) = paths.pop() {
            assert(paths@ =~= before.drop_last());
            let ghost was = kept@;
            if is_file[n] {
                kept.insert(0, p);
                assert(kept@ =~= seq![p] + was);
            }
            assert(picked(before, flags) + was =~= picked(paths@, is_file@.take(n as int)) + kept@);
        }
    }
    if kept.len() == 0 {
        None
    } else {
        Some(kept)
    }
}

/// The elements of `s` whose flag is set, in order.
pub open spec fn picked<T>(s: Seq<T>, flags: Seq<bool>) -> Seq<T>
    decreases s.len(),
{
    if s.len() == 0 {
        Seq::empty()
    } else if flags.last() {
        picked(s.drop_last(), flags.drop_last()).push(s.last())
    } else {
        picked(s.drop_last(), flags.drop_last())
    }
}

/// There is no file clipboard on this platform.
#[derive(Debug, Clone, Copy, PartialEq, Eq, Structural)]
pub struct Unsupported;

/// The files on the clipboard of a platform without a file clipboard: none.
pub fn read_file_list() -> (r: Option<Vec<String>>)
    ensures
        r is None,
{
    None
}

/// Puts files on the clipboard of a platform without a file clipboard: it cannot be
/// done.
pub fn write_file_list(_paths: &Vec<String>) -> (r: Result<(), Unsupported>)
    ensures
        r == Err::<(), Unsupported>(Unsupported),
{
    Err(Unsupported)
}

/// The length of the header of a Windows drop list.
pub const DROP_HEADER: usize = 20;

/// The units of a Windows drop list: each path with a null behind it, and one null
/// more at the end.
pub open spec fn drop_units(paths: Seq<Vec<u16>>) -> Seq<u16>
    decreases paths.len(),
{
    if paths.len() == 0 {
        seq![0u16]
    } else {
        paths[0]@.push(0) + drop_units(paths.skip(1))
    }
}

/// UTF-16 units in the byte order of Windows.
pub open spec fn unit_bytes(units: Seq<u16>) -> Seq<u8>
    decreases units.len(),
{
    if units.len() == 0 {
        Seq::empty()
    } else {
        unit_bytes(units.drop_last()) + wire::le(units.last() as nat, 2)
    }
}

/// The header of a Windows drop list: where the units begin, a drop point of (0, 0)
/// in client coordinates, and that the units are wide.
pub open spec fn drop_header() -> Seq<u8> {
    wire::le(DROP_HEADER as nat, 4) + wire::le(0, 4) + wire::le(0, 4) + wire::le(0, 4) + wire::le(
        1,
        4,
    )
}

/// The clipboard content, in the format of a Windows drop list, that stands for these
/// paths.
pub fn drop_list(paths: &Vec<Vec<u16>>) -> (r: Vec<u8>)
    ensures
        r@ == drop_header() + unit_bytes(drop_units(paths@)),
{
    let mut out: Vec<u8> = wire::put_le(DROP_HEADER as u64, 4);
    wire::extend(&mut out, wire::put_le(0, 4));
    wire::extend(&mut out, wire::put_le(0, 4));
    wire::extend(&mut out, wire::put_le(0, 4));
    wire::extend(&mut out, wire::put_le(1, 4));
    let mut units: Vec<u16> = Vec::new();
    let mut i: usize = 0;
    assert(paths@.skip(0) =~= paths@);
    assert(units@ + drop_units(paths@.skip(0)) =~= drop_units(paths@));
    while i < paths.len()
        invariant
            i <= paths@.len(),
            units@ + drop_units(paths@.skip(i as int)) == drop_units(paths@),
        decreases paths@.len() - i,
    {
        let ghost before = units@;
        units.extend_from_slice(paths[i].as_slice());
        units.push(0);
        assert(paths@.skip(i as int).skip(1) =~= paths@.skip(i + 1));
        assert(units@ =~= before + paths@[i as int]@.push(0));
        assert(units@ + drop_units(paths@.skip(i + 1)) =~= before + drop_units(
            paths@.skip(i as int),
        ));
        i = i + 1;
    }
    units.push(0);
    assert(units@ =~= drop_units(paths@));
    let mut j: usize = 0;
    assert(units@.take(0) =~= Seq::empty());
    assert(out@ =~= drop_header() + unit_bytes(units@.take(0)));
    while j < units.len()
        invariant
            j <= units@.len(),
            out@ == drop_header() + unit_bytes(units@.take(j as int)),
        decreases units@.len() - j,
    {
        wire::extend(&mut out, wire::put_le(units[j] as u64, 2));
        assert(units@.take(j + 1).drop_last() =~= units@.take(j as int));
        assert(out@ =~= drop_header() + unit_bytes(units@.take(j + 1)));
        j = j + 1;
    }
    assert(units@.take(j as int) =~= units@);
    out
}

/// The first null among these units.
pub open spec fn null_at(units: Seq<u16>) -> int
    decreases units.len(),
{
    if units.len() == 0 || units[0] == 0 {
        0
    } else {
        1 + null_at(units.skip(1))
    }
}

/// The paths that a reader finds in the units of a drop list: each up to a null, until
/// one is empty.
pub open spec fn listed(units: Seq<u16>) -> Seq<Seq<u16>>
    decreases units.len(),
{
    let n = null_at(units);
    if n <= 0 || n >= units.len() {
        Seq::empty()
    } else {
        seq![units.take(n)] + listed(units.skip(n + 1))
    }
}

proof fn null_found(path: Seq<u16>, rest: Seq<u16>)
    requires
        forall|i: int| 0 <= i < path.len() ==> path[i] != 0,
    ensures
        null_at(path.push(0) + rest) == path.len(),
    decreases path.len(),
{
    let all = path.push(0) + rest;
    if path.len() > 0 {
        assert(all.skip(1) =~= path.skip(1).push(0) + rest);
        null_found(path.skip(1), rest);
    }
}

/// A drop list lists the paths that it was made of, whatever they are, as long as
/// none is empty or holds a null.
pub proof fn drop_list_lists_back(paths: Seq<Vec<u16>>)
    requires
        forall|k: int, i: int|
            0 <= k < paths.len() && 0 <= i < paths[k]@.len() ==> #[trigger] paths[k]@[i] != 0,
        forall|k: int| 0 <= k < paths.len() ==> (#[trigger] paths[k])@.len() > 0,
    ensures
        listed(drop_units(paths)) == paths.map_values(|p: Vec<u16>| p@),
    decreases paths.len(),
{
    let units = drop_units(paths);
    if paths.len() > 0 {
        let path = paths[0]@;
        let rest = drop_units(paths.skip(1));
        null_found(path, rest);
        assert(units.take(path.len() as int) =~= path);
        assert(units.skip(path.len() as int + 1) =~= rest);
        drop_list_lists_back(paths.skip(1));
        assert(listed(units) =~= paths.map_values(|p: Vec<u16>| p@));
    } else {
        assert(listed(units) =~= paths.map_values(|p: Vec<u16>| p@));
    }
}

/// What is hashed for a file tells it from every other: from one with another path, or
/// another size, or another time of modification, or of which less is known.
pub proof fn stamps_are_told_apart(a: FileStamp, b: FileStamp)
    requires
        stamp_writes(a) == stamp_writes(b),
    ensures
        a.path@ == b.path@,
        a.state == b.state,
{
    let (x, y) = (stamp_writes(a), stamp_writes(b));
    assert(x[0] == a.path@ && y[0] == b.path@);
    if let Some(s) = a.state {
        if let Some(t) = b.state {
            assert(x[2] == wire::bits_bytes(s.len) && y[2] == wire::bits_bytes(t.len));
            wire::bits_read_back(s.len, Seq::empty());
            wire::bits_read_back(t.len, Seq::empty());
            if let Some(m) = s.modified {
                if let Some(n) = t.modified {
                    assert(x[3] == wire::bits_bytes(m.secs) && y[3] == wire::bits_bytes(n.secs));
                    assert(x[4] == wire::bits_bytes(m.nanos as u64));
                    assert(y[4] == wire::bits_bytes(n.nanos as u64));
                    wire::bits_read_back(m.secs, Seq::empty());
                    wire::bits_read_back(n.secs, Seq::empty());
                    wire::bits_read_back(m.nanos as u64, Seq::empty());
                    wire::bits_read_back(n.nanos as u64, Seq::empty());
                }
            }
        }
    }
}

proof fn stamps_of_both(some: Seq<FileStamp>, more: Seq<FileStamp>)
    ensures
        stamps_writes(some + more) == stamps_writes(some) + stamps_writes(more),
    decreases more.len(),
{
    let all = some + more;
    if more.len() > 0 {
        stamps_of_both(some, more.drop_last());
        assert(all.drop_last() =~= some + more.drop_last());
        assert(stamps_writes(all) =~= stamps_writes(some) + stamps_writes(more));
    } else {
        assert(all =~= some);
        assert(stamps_writes(all) =~= stamps_writes(some) + stamps_writes(more));
    }
}

/// A batch in which one file has changed hashes differently, wherever in it the file is.
pub proof fn a_changed_file_shows(before: Seq<FileStamp>, a: FileStamp, b: FileStamp, behind: Seq<
    FileStamp,
>)
    requires
        files_writes(before + seq![a] + behind) == files_writes(before + seq![b] + behind),
    ensures
        a.path@ == b.path@,
        a.state == b.state,
{
    reveal_with_fuel(stamps_writes, 2);
    assert(seq![a].drop_last() =~= Seq::empty());
    assert(seq![b].drop_last() =~= Seq::empty());
    assert(stamps_writes(seq![a]) =~= stamp_writes(a));
    assert(stamps_writes(seq![b]) =~= stamp_writes(b));
    stamps_of_both(before + seq![a], behind);
    stamps_of_both(before, seq![a]);
    stamps_of_both(before + seq![b], behind);
    stamps_of_both(before, seq![b]);
    let head = seq![seq![2u8]] + stamps_writes(before);
    let tail = stamps_writes(behind);
    let x = files_writes(before + seq![a] + behind);
    let y = files_writes(before + seq![b] + behind);
    assert(x =~= head + stamp_writes(a) + tail);
    assert(y =~= head + stamp_writes(b) + tail);
    let n = head.len() as int;
    let k = n + stamp_writes(a).len();
    assert(stamp_writes(a).len() == stamp_writes(b).len());
    assert(x.subrange(n, k) =~= stamp_writes(a));
    assert(y.subrange(n, k) =~= stamp_writes(b));
    stamps_are_told_apart(a, b);
}

/// What is hashed for a text tells it from every other text.
pub proof fn texts_are_told_apart(a: Seq<char>, b: Seq<char>)
    requires
        tagged_text_writes(a) == tagged_text_writes(b),
    ensures
        a == b,
{
    assert(tagged_text_writes(a).skip(1) =~= clipboard::text_writes(a));
    assert(tagged_text_writes(b).skip(1) =~= clipboard::text_writes(b));
    clipboard::texts_are_told_apart(a, b);
}

/// The places of the elements that are picked.
pub open spec fn places(flags: Seq<bool>) -> Seq<int> {
    picked(Seq::new(flags.len(), |i: int| i), flags)
}

/// What is picked stands where the flags are set, in the order in which it stood, and
/// nothing that is flagged is left out.
pub proof fn picked_are_the_flagged<T>(s: Seq<T>, flags: Seq<bool>)
    requires
        s.len() == flags.len(),
    ensures
        picked(s, flags).len() == places(flags).len(),
        forall|k: int|
            0 <= k < places(flags).len() ==> 0 <= #[trigger] places(flags)[k] < s.len()
                && flags[places(flags)[k]] && picked(s, flags)[k] == s[places(flags)[k]],
        forall|j: int, k: int|
            0 <= j < k < places(flags).len() ==> places(flags)[j] < places(flags)[k],
        forall|i: int| 0 <= i < flags.len() && flags[i] ==> #[trigger] places(flags).contains(i),
    decreases s.len(),
{
    let numbers = Seq::new(flags.len(), |i: int| i);
    if s.len() > 0 {
        let fewer = flags.drop_last();
        picked_are_the_flagged(s.drop_last(), fewer);
        assert(numbers.drop_last() =~= Seq::new(fewer.len(), |i: int| i));
        let old_places = places(fewer);
        let new_places = places(flags);
        if flags.last() {
            assert(new_places == old_places.push(s.len() - 1));
        } else {
            assert(new_places == old_places);
        }
        assert forall|i: int| 0 <= i < flags.len() && flags[i] implies #[trigger]
        new_places.contains(i) by {
            if i < fewer.len() {
                assert(fewer[i]);
                assert(old_places.contains(i));
                let k = choose|k: int| 0 <= k < old_places.len() && old_places[k] == i;
                assert(new_places[k] == i);
            } else {
                assert(new_places[new_places.len() - 1] == i);
            }
        }
        assert forall|k: int| 0 <= k < new_places.len() implies 0 <= #[trigger] new_places[k]
            < s.len() && flags[new_places[k]] && picked(s, flags)[k] == s[new_places[k]] by {
            if k < old_places.len() {
                assert(new_places[k] == old_places[k]);
                assert(fewer[old_places[k]] == flags[old_places[k]]);
            }
        }
        assert forall|j: int, k: int| 0 <= j < k < new_places.len() implies new_places[j]
            < new_places[k] by {
            assert(new_places[j] == old_places[j]);
            if k < old_places.len() {
                assert(new_places[k] == old_places[k]);
            }
        }
    }
}

/// The header of a drop list is twenty bytes: how long it is, a drop point of zeros, and
/// that the units are wide.
pub proof fn drop_header_layout()
    ensures
        drop_header() == seq![
            20u8, 0, 0, 0,
            0, 0, 0, 0,
            0, 0, 0, 0,
            0, 0, 0, 0,
            1, 0, 0, 0,
        ],
{
    reveal_with_fuel(wire::le, 5);
    assert(wire::le(20, 4) =~= seq![20u8, 0, 0, 0]);
    assert(wire::le(0, 4) =~= seq![0u8, 0, 0, 0]);
    assert(wire::le(1, 4) =~= seq![1u8, 0, 0, 0]);
}

/// Each unit is two bytes, the lower half first.
pub proof fn units_are_two_bytes(units: Seq<u16>, k: int)
    requires
        0 <= k < units.len(),
    ensures
        unit_bytes(units).len() == 2 * units.len(),
        unit_bytes(units)[2 * k] + 256 * unit_bytes(units)[2 * k + 1] == units[k],
    decreases units.len(),
{
    reveal_with_fuel(wire::le, 3);
    reveal_with_fuel(unit_bytes, 2);
    let last = units.last() as nat;
    assert(wire::le(last, 2) =~= seq![(last % 256) as u8, (last / 256) as u8]);
    if k < units.len() - 1 {
        units_are_two_bytes(units.drop_last(), k);
    } else if units.len() > 1 {
        units_are_two_bytes(units.drop_last(), 0);
    } else {
        assert(units.drop_last() =~= Seq::empty());
    }
}

/// A drop list has a null behind each path and one more at the end, and nothing else
/// but the paths.
pub proof fn drop_list_ends(paths: Seq<Vec<u16>>, more: Vec<u16>)
    ensures
        drop_units(Seq::empty()) == seq![0u16],
        drop_units(paths).last() == 0,
        drop_units(paths.push(more)) == drop_units(paths).drop_last() + more@ + seq![0u16, 0u16],
    decreases paths.len(),
{
    let all = paths.push(more);
    if paths.len() > 0 {
        drop_list_ends(paths.skip(1), more);
        assert(all.skip(1) =~= paths.skip(1).push(more));
        let rest = drop_units(paths.skip(1));
        assert(drop_units(paths).drop_last() =~= paths[0]@.push(0) + rest.drop_last());
        assert(drop_units(all) =~= drop_units(paths).drop_last() + more@ + seq![0u16, 0u16]);
    } else {
        assert(paths =~= Seq::empty());
        assert(all.skip(1) =~= Seq::empty());
        reveal_with_fuel(drop_units, 2);
        assert(drop_units(all) =~= drop_units(paths).drop_last() + more@ + seq![0u16, 0u16]);
    }
}

} // verus!
