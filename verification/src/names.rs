//! Names for the files that come in.
//!
//! A name comes from the peer, so only its last component is used, and a file that is
//! there already is never overwritten.

use vstd::prelude::*;
use vstd::seq_lib::*;
use vstd::set_lib::*;
use vstd::string::*;

verus! {

/// The last place in `s` before `n` with this character, or -1.
pub open spec fn last_at(s: Seq<char>, c: char, n: int) -> int
    decreases n,
{
    if n <= 0 {
        -1
    } else if s[n - 1] == c {
        n - 1
    } else {
        last_at(s, c, n - 1)
    }
}

/// The last component of a path with `/` between its components. Nothing and `.` at
/// the end are no components.
pub open spec fn last_component(name: Seq<char>) -> Seq<char>
    decreases name.len(),
{
    let i = last_at(name, '/', name.len() as int);
    if 0 <= i < name.len() {
        let c = name.skip(i + 1);
        if c.len() == 0 || c == seq!['.'] {
            last_component(name.take(i))
        } else {
            c
        }
    } else {
        name
    }
}

/// What the last component names, if it names anything.
pub open spec fn base_of(name: Seq<char>) -> Option<Seq<char>> {
    let c = last_component(name);
    if c.len() == 0 || c == seq!['.'] || c == seq!['.', '.'] {
        None
    } else {
        Some(c)
    }
}

/// Windows separates components with `\` as well.
pub open spec fn separator(c: char) -> bool {
    c == '/' || c == '\\'
}

/// The path begins with what Windows may take for a drive.
pub open spec fn drive(name: Seq<char>) -> bool {
    name.len() >= 2 && name[1] == ':'
}

/// The path begins with what Windows may take for a network share or a device.
pub open spec fn share(name: Seq<char>) -> bool {
    name.len() >= 2 && separator(name[0]) && separator(name[1])
}

/// The path begins with components on every platform.
pub open spec fn plain(name: Seq<char>) -> bool {
    !drive(name) && !share(name)
}

/// The path as Windows reads it.
pub open spec fn with_slashes(name: Seq<char>) -> Seq<char> {
    name.map_values(
        |c: char|
            if c == '\\' {
                '/'
            } else {
                c
            },
    )
}

/// `base` is what the path's last component names, on one platform or another. The
/// platforms differ only where the path holds a `\` or begins with a drive.
pub open spec fn some_base(name: Seq<char>, base: Option<Seq<char>>) -> bool {
    ||| base == base_of(name)
    ||| base == base_of(with_slashes(name))
    ||| drive(name) && base == base_of(with_slashes(name.skip(2)))
}

/// `std::path::Path::file_name` on a path that is Unicode: the last component, where
/// that is neither a root nor `..`. Windows takes a `\` for a separator too, and a
/// letter and a colon at the beginning for a drive, which is no component. Of a path
/// that begins with two separators Windows may take more for a prefix, and so find no
/// last component, or take `/` for no separator.
#[verifier::external_body]
fn file_name(name: &str) -> (r: Option<String>)
    ensures
        !share(name@) ==> match r {
            Some(s) => some_base(name@, Some(s@)),
            None => some_base(name@, None),
        },
        r matches Some(s) ==> s@.contains('/') || some_base(name@, Some(s@)),
{
    std::path::Path::new(name).file_name().and_then(|n| n.to_str()).map(String::from)
}

/// Without a `\` in it, and without a drive, every platform makes the same of a path.
pub proof fn platforms_agree(name: Seq<char>, base: Option<Seq<char>>)
    requires
        !name.contains('\\'),
        !drive(name),
    ensures
        some_base(name, base) <==> base == base_of(name),
{
    assert forall|i: int| 0 <= i < name.len() implies name[i] != '\\' by {
        assert(name.contains(name[i]));
    }
    assert(with_slashes(name) =~= name);
}

/// What a file is called that has no usable name.
pub open spec fn unnamed() -> Seq<char> {
    seq!['u', 'n', 'n', 'a', 'm', 'e', 'd']
}

/// The name stands for something in a directory: it is not empty, holds no `/`, and is
/// neither the directory nor the one above it. On Windows, where `\` separates too, it
/// is `Path::file_name` that leaves none in a base name.
pub open spec fn stays_inside(name: Seq<char>) -> bool {
    &&& name.len() > 0
    &&& !name.contains('/')
    &&& name != seq!['.']
    &&& name != seq!['.', '.']
}

/// The name for a file with this base name.
pub open spec fn sanitized(base: Option<Seq<char>>) -> Seq<char> {
    match base {
        Some(b) => if stays_inside(b) {
            b
        } else {
            unnamed()
        },
        None => unnamed(),
    }
}

fn unnamed_string() -> (r: String)
    ensures
        r@ == unnamed(),
{
    proof {
        reveal_strlit("unnamed");
    }
    let r = String::from_str("unnamed");
    assert(r@ =~= unnamed());
    r
}

fn has_separator(s: &str) -> (r: bool)
    ensures
        r == s@.contains('/'),
{
    let n: usize = s.unicode_len();
    let mut i: usize = 0;
    while i < n
        invariant
            i <= n == s@.len(),
            forall|k: int| 0 <= k < i ==> s@[k] != '/',
        decreases n - i,
    {
        if s.get_char(i) == '/' {
            return true;
        }
        i = i + 1;
    }
    false
}

/// The name for a file, from the base name of the path that the peer has sent.
pub fn sanitize_base(base: Option<String>) -> (r: String)
    ensures
        r@ == sanitized(
            match base {
                Some(b) => Some(b@),
                None => None,
            },
        ),
        stays_inside(r@),
{
    assert(unnamed()[0] == 'u');
    match base {
        Some(b) => {
            proof {
                reveal_strlit(".");
                reveal_strlit("..");
                assert("."@ =~= seq!['.']);
                assert(".."@ =~= seq!['.', '.']);
            }
            if b.as_str().is_empty() || b == String::from_str(".") || b == String::from_str("..")
                || has_separator(b.as_str()) {
                unnamed_string()
            } else {
                b
            }
        },
        None => unnamed_string(),
    }
}

/// The name for a file, from the path that the peer has sent: only its last component,
/// so that the file cannot end up outside the directory meant for it.
pub fn sanitize_name(name: &str) -> (r: String)
    ensures
        stays_inside(r@),
        plain(name@) ==> r@ == sanitized(base_of(name@)) || r@ == sanitized(
            base_of(with_slashes(name@)),
        ),
        drive(name@) ==> r@ == sanitized(base_of(name@)) || r@ == sanitized(
            base_of(with_slashes(name@)),
        ) || r@ == sanitized(base_of(with_slashes(name@.skip(2)))),
        share(name@) ==> r@ == unnamed() || r@ == sanitized(base_of(name@)) || r@ == sanitized(
            base_of(with_slashes(name@)),
        ),
        plain(name@) && !name@.contains('\\') ==> r@ == sanitized(base_of(name@)),
{
    proof {
        if plain(name@) && !name@.contains('\\') {
            platforms_agree(name@, base_of(with_slashes(name@)));
        }
    }
    sanitize_base(file_name(name))
}

proof fn last_at_finds(s: Seq<char>, c: char, n: int)
    requires
        0 <= n <= s.len(),
    ensures
        -1 <= last_at(s, c, n) < n,
        last_at(s, c, n) >= 0 ==> s[last_at(s, c, n)] == c,
        forall|k: int| last_at(s, c, n) < k < n ==> s[k] != c,
    decreases n,
{
    if n > 0 && s[n - 1] != c {
        last_at_finds(s, c, n - 1);
    }
}

proof fn last_component_has_no_separator(name: Seq<char>)
    ensures
        !last_component(name).contains('/'),
    decreases name.len(),
{
    let n = name.len() as int;
    last_at_finds(name, '/', n);
    let i = last_at(name, '/', n);
    if 0 <= i < n {
        let c = name.skip(i + 1);
        if c.len() == 0 || c == seq!['.'] {
            last_component_has_no_separator(name.take(i));
        } else {
            assert forall|k: int| 0 <= k < c.len() implies c[k] != '/' by {
                assert(c[k] == name[i + 1 + k]);
            }
        }
    }
}

/// Whatever base name the platform makes of a path, the file gets a name without a `/`
/// that is neither the directory meant for it nor the one above.
pub proof fn name_stays_in_the_directory(base: Option<Seq<char>>)
    ensures
        stays_inside(sanitized(base)),
{
    assert(unnamed()[0] == 'u');
}

/// A path names the file that its last component names, where it has one: nothing of
/// it is given up for safety.
pub proof fn last_component_is_kept(name: Seq<char>)
    ensures
        base_of(name) matches Some(b) ==> sanitized(base_of(name)) == b,
{
    last_component_has_no_separator(name);
}

/// A name that is a single component is kept.
pub proof fn plain_name_is_kept(name: Seq<char>)
    requires
        stays_inside(name),
    ensures
        sanitized(base_of(name)) == name,
{
    last_at_finds(name, '/', name.len() as int);
}

proof fn without_backslashes(name: Seq<char>)
    ensures
        !with_slashes(name).contains('\\'),
        !name.contains('\\') ==> with_slashes(name) == name,
{
    if !name.contains('\\') {
        assert forall|i: int| 0 <= i < name.len() implies name[i] != '\\' by {
            assert(name.contains(name[i]));
        }
        assert(with_slashes(name) =~= name);
    }
}

proof fn component_is_of_the_path(name: Seq<char>, c: char)
    requires
        !name.contains(c),
    ensures
        !last_component(name).contains(c),
    decreases name.len(),
{
    let n = name.len() as int;
    let i = last_at(name, '/', n);
    if 0 <= i < n {
        let last = name.skip(i + 1);
        let rest = name.take(i);
        assert forall|k: int| 0 <= k < last.len() implies last[k] != c by {
            assert(name.contains(name[i + 1 + k]));
        }
        assert forall|k: int| 0 <= k < rest.len() implies rest[k] != c by {
            assert(name.contains(name[k]));
        }
        component_is_of_the_path(rest, c);
    }
}

/// Giving a name twice changes nothing the second time, on any platform.
pub proof fn sanitizing_is_idempotent(name: Seq<char>)
    ensures
        sanitized(base_of(sanitized(base_of(name)))) == sanitized(base_of(name)),
        ({
            let once = sanitized(base_of(with_slashes(name)));
            sanitized(base_of(with_slashes(once))) == once
        }),
{
    name_stays_in_the_directory(base_of(name));
    plain_name_is_kept(sanitized(base_of(name)));
    let read = with_slashes(name);
    let once = sanitized(base_of(read));
    without_backslashes(name);
    component_is_of_the_path(read, '\\');
    name_stays_in_the_directory(base_of(read));
    without_backslashes(once);
    plain_name_is_kept(once);
}

/// Only the last component matters: whatever stands before a name that is kept, with a
/// `/` between, is left out. So it is on Windows, for a name without a `\`.
pub proof fn only_the_last_component_matters(prefix: Seq<char>, name: Seq<char>)
    requires
        stays_inside(name),
    ensures
        sanitized(base_of(prefix + seq!['/'] + name)) == name,
        !name.contains('\\') ==> sanitized(base_of(with_slashes(prefix + seq!['/'] + name)))
            == name,
{
    last_of_joined(prefix, name);
    if !name.contains('\\') {
        without_backslashes(name);
        let all = prefix + seq!['/'] + name;
        assert(with_slashes(all) =~= with_slashes(prefix) + seq!['/'] + with_slashes(name));
        last_of_joined(with_slashes(prefix), name);
    }
}

proof fn last_of_joined(prefix: Seq<char>, name: Seq<char>)
    requires
        stays_inside(name),
    ensures
        last_component(prefix + seq!['/'] + name) == name,
{
    let all = prefix + seq!['/'] + name;
    let n = all.len() as int;
    let at = prefix.len() as int;
    last_at_finds(all, '/', n);
    let i = last_at(all, '/', n);
    assert(all[at] == '/');
    if i > at {
        assert(all[i] == name[i - at - 1]);
        assert(name.contains(name[i - at - 1]));
    }
    assert(all.skip(at + 1) =~= name);
}

/// The decimal digits of `n`.
pub open spec fn decimal(n: nat) -> Seq<char>
    decreases n,
{
    if n < 10 {
        seq![digit(n)]
    } else {
        decimal(n / 10).push(digit(n % 10))
    }
}

/// The digit for `d`, below ten.
pub open spec fn digit(d: nat) -> char {
    ('0' as nat + d) as char
}

fn digit_string(d: u64) -> (r: String)
    requires
        d < 10,
    ensures
        r@ == seq![digit(d as nat)],
{
    proof {
        reveal_strlit("0");
        reveal_strlit("1");
        reveal_strlit("2");
        reveal_strlit("3");
        reveal_strlit("4");
        reveal_strlit("5");
        reveal_strlit("6");
        reveal_strlit("7");
        reveal_strlit("8");
        reveal_strlit("9");
    }
    let s = match d {
        0 => "0",
        1 => "1",
        2 => "2",
        3 => "3",
        4 => "4",
        5 => "5",
        6 => "6",
        7 => "7",
        8 => "8",
        _ => "9",
    };
    assert(s@ =~= seq![digit(d as nat)]);
    String::from_str(s)
}

fn decimal_string(n: u64) -> (r: String)
    ensures
        r@ == decimal(n as nat),
    decreases n,
{
    if n < 10 {
        digit_string(n)
    } else {
        let mut s = decimal_string(n / 10);
        s.append(digit_string(n % 10).as_str());
        assert(s@ =~= decimal((n / 10) as nat).push(digit((n % 10) as nat)));
        s
    }
}

/// What a path names, before and behind its last dot. A name without a dot, or with
/// none but at its beginning, has no extension; a path that names no file has a stem
/// all the same.
pub open spec fn split_name(name: Seq<char>) -> (Seq<char>, Option<Seq<char>>) {
    match base_of(name) {
        None => (unnamed(), None),
        Some(base) => {
            let dot = last_at(base, '.', base.len() as int);
            if dot <= 0 {
                (base, None)
            } else {
                (base.take(dot), Some(base.skip(dot + 1)))
            }
        },
    }
}

/// What comes behind the number in a name: the extension.
pub open spec fn suffix(name: Seq<char>) -> Seq<char> {
    match split_name(name).1 {
        Some(ext) => seq!['.'] + ext,
        None => Seq::empty(),
    }
}

/// The names to try for a file, one after the other: its own, and then that of its last
/// component with a number behind the stem.
pub open spec fn candidate(name: Seq<char>, i: nat) -> Seq<char> {
    if i == 0 {
        name
    } else {
        split_name(name).0 + seq![' ', '('] + decimal(i) + seq![')'] + suffix(name)
    }
}

/// These strings, as characters.
pub open spec fn views(strings: Seq<String>) -> Seq<Seq<char>> {
    strings.map_values(|s: String| s@)
}

/// The first candidate that is not taken is this one.
pub open spec fn first_free(name: Seq<char>, taken: Seq<Seq<char>>, i: nat) -> bool {
    &&& !taken.contains(candidate(name, i))
    &&& forall|j: nat| j < i ==> taken.contains(#[trigger] candidate(name, j))
}

/// The last component of a path.
fn component(s: &str) -> (r: String)
    ensures
        r@ == last_component(s@),
    decreases s@.len(),
{
    let n: usize = s.unicode_len();
    let mut i: usize = n;
    while i > 0 && s.get_char(i - 1) != '/'
        invariant
            i <= n == s@.len(),
            last_at(s@, '/', i as int) == last_at(s@, '/', n as int),
        decreases i,
    {
        i = i - 1;
    }
    if i == 0 {
        return String::from_str(s);
    }
    let c = String::from_str(s.substring_char(i, n));
    assert(c@ =~= s@.skip(i as int));
    proof {
        reveal_strlit(".");
        assert("."@ =~= seq!['.']);
    }
    if i == n || c == String::from_str(".") {
        let rest = s.substring_char(0, i - 1);
        assert(rest@ =~= s@.take(i - 1));
        component(rest)
    } else {
        c
    }
}

fn split(name: &String) -> (r: (String, String))
    ensures
        r.0@ == split_name(name@).0,
        r.1@ == suffix(name@),
{
    let base = component(name.as_str());
    let s = base.as_str();
    let n: usize = s.unicode_len();
    proof {
        reveal_strlit(".");
        reveal_strlit("..");
        assert("."@ =~= seq!['.']);
        assert(".."@ =~= seq!['.', '.']);
    }
    if n == 0 || base == String::from_str(".") || base == String::from_str("..") {
        return (unnamed_string(), String::new());
    }
    let mut i: usize = n;
    while i > 0 && s.get_char(i - 1) != '.'
        invariant
            i <= n == s@.len(),
            last_at(s@, '.', i as int) == last_at(s@, '.', n as int),
        decreases i,
    {
        i = i - 1;
    }
    if i <= 1 {
        assert(last_at(s@, '.', n as int) <= 0);
        return (String::from_str(s), String::new());
    }
    let ghost dot = last_at(s@, '.', n as int);
    assert(dot == i - 1);
    let stem = String::from_str(s.substring_char(0, i - 1));
    let rest = String::from_str(s.substring_char(i - 1, n));
    assert(stem@ =~= base@.take(dot));
    assert(rest@ =~= seq!['.'] + base@.skip(dot + 1));
    (stem, rest)
}

fn is_taken(taken: &Vec<String>, name: &String) -> (r: bool)
    ensures
        r == views(taken@).contains(name@),
{
    let mut i: usize = 0;
    while i < taken.len()
        invariant
            i <= taken@.len(),
            forall|k: int| 0 <= k < i ==> views(taken@)[k] != name@,
        decreases taken@.len() - i,
    {
        if taken[i] == *name {
            assert(views(taken@)[i as int] == name@);
            return true;
        }
        i = i + 1;
    }
    false
}

/// The name for a file, where these names are taken: its own, or else the first free
/// one with a number behind it. `name` is a file name, as `sanitize_name` gives; of a
/// path with `/` between its components, the number goes behind the last one alone.
pub fn unique_path(name: &String, taken: &Vec<String>) -> (r: String)
    ensures
        exists|i: nat| #[trigger]
            first_free(name@, views(taken@), i) && r@ == candidate(name@, i),
{
    if !is_taken(taken, name) {
        assert(first_free(name@, views(taken@), 0));
        return name.clone();
    }
    let (stem, rest) = split(name);
    let n: u64 = taken.len() as u64;
    let mut i: u64 = 0;
    proof {
        reveal_strlit(" (");
        reveal_strlit(")");
        assert(" ("@ =~= seq![' ', '(']);
        assert(")"@ =~= seq![')']);
    }
    while i < n
        invariant
            i <= n == taken@.len(),
            stem@ == split_name(name@).0,
            rest@ == suffix(name@),
            " ("@ == seq![' ', '('],
            ")"@ == seq![')'],
            forall|j: nat|
                j <= i ==> views(taken@).contains(#[trigger] candidate(name@, j)),
        decreases n - i,
    {
        i = i + 1;
        let mut alt = stem.clone();
        alt.append(" (");
        alt.append(decimal_string(i).as_str());
        alt.append(")");
        alt.append(rest.as_str());
        assert(alt@ =~= candidate(name@, i as nat));
        if !is_taken(taken, &alt) {
            assert(first_free(name@, views(taken@), i as nat));
            return alt;
        }
    }
    proof {
        some_candidate_is_free(name@, views(taken@));
    }
    name.clone()
}

proof fn decimal_is_injective(a: nat, b: nat)
    requires
        decimal(a) == decimal(b),
    ensures
        a == b,
    decreases a,
{
    let (x, y) = (decimal(a), decimal(b));
    assert(x.last() == digit(a % 10));
    assert(y.last() == digit(b % 10));
    assert(a % 10 == b % 10);
    decimal_is_not_empty(a / 10);
    decimal_is_not_empty(b / 10);
    if a >= 10 {
        assert(x.drop_last() =~= decimal(a / 10));
        assert(y.drop_last() =~= decimal(b / 10));
        decimal_is_injective(a / 10, b / 10);
    }
}

proof fn decimal_is_not_empty(n: nat)
    ensures
        decimal(n).len() > 0,
{
}

proof fn decimal_has_no_separator(n: nat)
    ensures
        !decimal(n).contains('/'),
    decreases n,
{
    if n >= 10 {
        decimal_has_no_separator(n / 10);
        let all = decimal(n);
        assert forall|k: int| 0 <= k < all.len() implies all[k] != '/' by {
            if k < all.len() - 1 {
                assert(all[k] == decimal(n / 10)[k]);
                assert(decimal(n / 10).contains(all[k]));
            }
        }
    }
}

/// A name with a number holds no `/`, and is neither the directory nor the one above
/// it, whatever it was made of.
pub proof fn numbered_name_stays_in_the_directory(name: Seq<char>, i: nat)
    requires
        i > 0,
    ensures
        stays_inside(candidate(name, i)),
{
    let (stem, _) = split_name(name);
    let rest = suffix(name);
    let all = candidate(name, i);
    let digits = decimal(i);
    last_component_has_no_separator(name);
    decimal_has_no_separator(i);
    if let Some(base) = base_of(name) {
        last_at_finds(base, '.', base.len() as int);
        assert forall|k: int| 0 <= k < base.len() implies base[k] != '/' by {
            assert(base.contains(base[k]));
        }
    }
    assert forall|k: int| 0 <= k < stem.len() implies stem[k] != '/' by {}
    assert forall|k: int| 0 <= k < rest.len() implies rest[k] != '/' by {}
    assert forall|k: int| 0 <= k < all.len() implies all[k] != '/' by {
        let at = stem.len() + 2;
        if at <= k < at + digits.len() {
            assert(all[k] == digits[k - at]);
            assert(digits.contains(all[k]));
        } else if k > at + digits.len() {
            assert(all[k] == rest[k - at - digits.len() - 1]);
        }
    }
    assert(all.len() >= 3);
}

/// No two candidates for a file are the same name.
pub proof fn candidates_differ(name: Seq<char>, i: nat, j: nat)
    requires
        i != j,
    ensures
        candidate(name, i) != candidate(name, j),
{
    if i > 0 && j > 0 {
        if candidate(name, i) == candidate(name, j) {
            let stem = split_name(name).0;
            let rest = suffix(name);
            let (x, y) = (candidate(name, i), candidate(name, j));
            let (a, b) = (decimal(i), decimal(j));
            assert(a.len() == b.len());
            assert forall|k: int| 0 <= k < a.len() implies a[k] == b[k] by {
                assert(x[stem.len() + 2 + k] == a[k]);
                assert(y[stem.len() + 2 + k] == b[k]);
            }
            assert(a =~= b);
            decimal_is_injective(i, j);
        }
    } else {
        let n = if i > 0 {
            i
        } else {
            j
        };
        numbered_name_stays_in_the_directory(name, n);
        if !name.contains('/') {
            last_at_finds(name, '/', name.len() as int);
            if let Some(base) = base_of(name) {
                assert(base == name);
                last_at_finds(base, '.', base.len() as int);
                assert(candidate(name, n).len() > name.len());
            }
        }
    }
}

proof fn some_candidate_is_free(name: Seq<char>, taken: Seq<Seq<char>>)
    ensures
        exists|i: nat| i <= taken.len() && !taken.contains(#[trigger] candidate(name, i)),
{
    let tried = Seq::new(taken.len() + 1, |i: int| candidate(name, i as nat));
    if forall|i: nat| i <= taken.len() ==> taken.contains(#[trigger] candidate(name, i)) {
        assert forall|i: int, j: int|
            0 <= i < tried.len() && 0 <= j < tried.len() && i != j implies tried[i]
            != tried[j] by {
            candidates_differ(name, i as nat, j as nat);
        }
        assert(tried.no_duplicates());
        tried.unique_seq_to_set();
        taken.lemma_cardinality_of_set();
        assert forall|x: Seq<char>| tried.to_set().contains(x) implies taken.to_set().contains(
            x,
        ) by {
            let i = choose|i: int| 0 <= i < tried.len() && tried[i] == x;
            assert(taken.contains(candidate(name, i as nat)));
        }
        seq_to_set_is_finite(taken);
        lemma_len_subset(tried.to_set(), taken.to_set());
    }
}

/// The name that is given is not taken, and it is the only one that can be given: the
/// first free candidate is unique.
pub proof fn first_free_is_unique(name: Seq<char>, taken: Seq<Seq<char>>, i: nat, j: nat)
    requires
        first_free(name, taken, i),
        first_free(name, taken, j),
    ensures
        i == j,
        !taken.contains(candidate(name, i)),
{
    if i < j {
        assert(taken.contains(candidate(name, i)));
    } else if j < i {
        assert(taken.contains(candidate(name, j)));
    }
}

/// There is always a free name, and it is found within as many attempts as there are
/// names taken, and one.
pub proof fn a_free_name_is_found(name: Seq<char>, taken: Seq<Seq<char>>)
    ensures
        exists|i: nat| i <= taken.len() && #[trigger] first_free(name, taken, i),
{
    some_candidate_is_free(name, taken);
    let n = choose|i: nat| i <= taken.len() && !taken.contains(#[trigger] candidate(name, i));
    least_free(name, taken, n);
}

proof fn least_free(name: Seq<char>, taken: Seq<Seq<char>>, n: nat)
    requires
        !taken.contains(candidate(name, n)),
    ensures
        exists|i: nat| i <= n && #[trigger] first_free(name, taken, i),
    decreases n,
{
    if exists|j: nat| j < n && !taken.contains(#[trigger] candidate(name, j)) {
        let j = choose|j: nat| j < n && !taken.contains(#[trigger] candidate(name, j));
        least_free(name, taken, j);
    } else {
        assert(first_free(name, taken, n));
    }
}

/// A separator at the end of a path, or a component that stands for the same directory,
/// makes no difference; a path that goes up at its end names nothing.
pub proof fn end_of_a_path(name: Seq<char>)
    ensures
        base_of(name + seq!['/']) == base_of(name),
        base_of(name + seq!['/', '.']) == base_of(name),
        base_of(name + seq!['/', '.', '.']) is None,
        base_of(Seq::empty()) is None,
        base_of(seq!['.']) is None,
        base_of(seq!['.', '.']) is None,
{
    let n = name.len() as int;
    let a = name + seq!['/'];
    last_at_finds(a, '/', n + 1);
    assert(a[n] == '/');
    assert(a.skip(n + 1) =~= Seq::empty());
    assert(a.take(n) =~= name);
    let b = name + seq!['/', '.'];
    last_at_finds(b, '/', n + 2);
    assert(b[n] == '/' && b[n + 1] == '.');
    assert(b.skip(n + 1) =~= seq!['.']);
    assert(b.take(n) =~= name);
    let c = name + seq!['/', '.', '.'];
    last_at_finds(c, '/', n + 3);
    assert(c[n] == '/' && c[n + 1] == '.' && c[n + 2] == '.');
    assert(c.skip(n + 1) =~= seq!['.', '.']);
    last_at_finds(seq!['.'], '/', 1);
    last_at_finds(seq!['.', '.'], '/', 2);
}

/// Every name that is not empty, holds no separator and is neither `.` nor `..` is the
/// name that the file gets, whatever characters it is made of and whatever stands before
/// it; and no file gets another kind of name.
pub proof fn every_proper_name_is_kept(
    prefix: Seq<char>,
    name: Seq<char>,
    base: Option<Seq<char>>,
)
    ensures
        name.len() > 0 && !name.contains('/') && name != seq!['.'] && name != seq!['.', '.'] ==> {
            &&& sanitized(Some(name)) == name
            &&& sanitized(base_of(name)) == name
            &&& sanitized(base_of(prefix + seq!['/'] + name)) == name
        },
        sanitized(base).len() > 0,
        !sanitized(base).contains('/'),
        sanitized(base) != seq!['.'],
        sanitized(base) != seq!['.', '.'],
{
    assert(unnamed()[0] == 'u');
    name_stays_in_the_directory(base);
    if name.len() > 0 && !name.contains('/') && name != seq!['.'] && name != seq!['.', '.'] {
        plain_name_is_kept(name);
        only_the_last_component_matters(prefix, name);
    }
}

/// A file without a usable name is called so.
pub proof fn unusable_names(base: Seq<char>)
    requires
        base.len() == 0 || base.contains('/') || base == seq!['.'] || base == seq!['.', '.'],
    ensures
        sanitized(None) == "unnamed"@,
        sanitized(Some(base)) == "unnamed"@,
{
    reveal_strlit("unnamed");
    assert("unnamed"@ =~= unnamed());
}

/// Windows reads a `\\` for a `/`, and everything else as it is.
pub proof fn slashes_for_backslashes(name: Seq<char>, k: int)
    requires
        0 <= k < name.len(),
    ensures
        with_slashes(name).len() == name.len(),
        name[k] == '\\' ==> with_slashes(name)[k] == '/',
        name[k] != '\\' ==> with_slashes(name)[k] == name[k],
{
}

/// The number that these digits give.
pub open spec fn number(digits: Seq<char>) -> int
    decreases digits.len(),
{
    if digits.len() == 0 {
        0
    } else {
        10 * number(digits.drop_last()) + (digits.last() as int - '0' as int)
    }
}

/// The digits of a number give the number, each is one of the ten, and none is a zero too
/// many in front.
pub proof fn decimal_gives_the_number(n: nat, k: int)
    requires
        0 <= k < decimal(n).len(),
    ensures
        number(decimal(n)) == n,
        '0' <= decimal(n)[k] <= '9',
        decimal(n)[0] == '0' ==> n == 0 && decimal(n).len() == 1,
    decreases n,
{
    let all = decimal(n);
    if n < 10 {
        assert(all.drop_last() =~= Seq::empty());
        reveal_with_fuel(number, 2);
    } else {
        decimal_is_not_empty(n / 10);
        assert(all.drop_last() =~= decimal(n / 10));
        decimal_gives_the_number(n / 10, 0);
        if k < all.len() - 1 {
            decimal_gives_the_number(n / 10, k);
        }
    }
}

/// A name with a number: the number stands in parentheses behind the name and before its
/// extension, which is what is behind the last dot; a dot in front makes no extension.
pub proof fn number_goes_before_the_extension(stem: Seq<char>, ext: Seq<char>, i: nat)
    requires
        stem.len() > 0,
        !stem.contains('/'),
        !ext.contains('/'),
        !ext.contains('.'),
        stem + seq!['.'] + ext != seq!['.', '.'],
        i > 0,
    ensures
        candidate(stem + seq!['.'] + ext, 0) == stem + seq!['.'] + ext,
        candidate(stem + seq!['.'] + ext, i) == stem + seq![' ', '('] + decimal(i) + seq![')', '.']
            + ext,
{
    let name = stem + seq!['.'] + ext;
    let n = name.len() as int;
    let at = stem.len() as int;
    assert(name[at] == '.');
    assert(name.len() >= 2);
    last_at_finds(name, '/', n);
    let slash = last_at(name, '/', n);
    if slash >= 0 {
        if slash < at {
            assert(stem[slash] == '/');
        } else if slash > at {
            assert(ext[slash - at - 1] == '/');
        }
    }
    assert(base_of(name) == Some(name));
    last_at_finds(name, '.', n);
    let dot = last_at(name, '.', n);
    if dot > at {
        assert(ext[dot - at - 1] == '.');
    }
    assert(name.take(at) =~= stem);
    assert(name.skip(at + 1) =~= ext);
    assert(candidate(name, i) =~= stem + seq![' ', '('] + decimal(i) + seq![')', '.'] + ext);
}

/// A name without a dot, or with none but in front, has the number behind it.
pub proof fn number_goes_behind_a_plain_name(name: Seq<char>, i: nat)
    requires
        name.len() > 0,
        !name.contains('/'),
        name != seq!['.'],
        forall|k: int| 1 <= k < name.len() ==> name[k] != '.',
        i > 0,
    ensures
        candidate(name, 0) == name,
        candidate(name, i) == name + seq![' ', '('] + decimal(i) + seq![')'],
{
    let n = name.len() as int;
    last_at_finds(name, '/', n);
    if last_at(name, '/', n) >= 0 {
        assert(name.contains(name[last_at(name, '/', n)]));
    }
    assert(name != seq!['.', '.']) by {
        if name == seq!['.', '.'] {
            assert(name[1] == '.');
        }
    }
    assert(base_of(name) == Some(name));
    last_at_finds(name, '.', n);
    assert(candidate(name, i) =~= name + seq![' ', '('] + decimal(i) + seq![')']);
}

/// Of a path, only what its last component names gets a number, and what names nothing
/// is numbered as the unnamed file.
pub proof fn number_is_of_the_last_component(prefix: Seq<char>, name: Seq<char>, i: nat)
    requires
        stays_inside(name),
        i > 0,
    ensures
        candidate(prefix + seq!['/'] + name, i) == candidate(name, i),
        base_of(prefix) is None ==> candidate(prefix, i) == "unnamed"@ + seq![' ', '('] + decimal(i)
            + seq![')'],
{
    last_of_joined(prefix, name);
    last_at_finds(name, '/', name.len() as int);
    assert(last_component(name) == name);
    reveal_strlit("unnamed");
    assert("unnamed"@ =~= unnamed());
    if base_of(prefix) is None {
        assert(candidate(prefix, i) =~= "unnamed"@ + seq![' ', '('] + decimal(i) + seq![')']);
    }
}

/// The name that is given is free: the file's own exactly if that is, or else one with
/// the lowest number that is.
pub proof fn given_name_is_the_first_free(name: Seq<char>, taken: Seq<Seq<char>>, i: nat, j: nat)
    requires
        first_free(name, taken, i),
    ensures
        !taken.contains(candidate(name, i)),
        i == 0 <==> !taken.contains(name),
        0 < j < i ==> taken.contains(candidate(name, j)),
{
    assert(candidate(name, 0) == name);
    if i > 0 {
        assert(taken.contains(candidate(name, 0)));
    }
}

} // verus!
