//! The primitives of the wire format: postcard's integers and strings.
//!
//! Every message is a concatenation of these. Unsigned integers are written in
//! groups of seven bits, least significant first, with the top bit of a byte set
//! when another group follows; signed ones are folded onto the unsigned ones
//! first; a string is its length in bytes followed by its UTF-8. The functions
//! here hand each value to postcard itself, and their contracts say what the
//! bytes are.

use vstd::arithmetic::div_mod::*;
use vstd::arithmetic::power2::*;
use vstd::prelude::*;
use vstd::string::*;
use vstd::utf8::*;

verus! {

/// Why bytes are not a message.
#[derive(Debug, Clone, Copy, PartialEq, Eq, Structural)]
pub enum DecodeError {
    /// The bytes ended inside a value.
    UnexpectedEnd,
    /// An integer with more groups or bits than its type has.
    BadVarint,
    /// A string that is not UTF-8.
    BadUtf8,
    /// An index that no variant of an enumeration has.
    UnknownVariant,
}

/// What is left to read after a value: the value and the bytes behind it.
pub type Taken<T> = Result<(T, Seq<u8>), DecodeError>;

/// `n` in groups of seven bits, least significant first.
pub open spec fn varint(n: nat) -> Seq<u8>
    decreases n,
{
    if n < 128 {
        seq![n as u8]
    } else {
        seq![(n % 128 + 128) as u8] + varint(n / 128)
    }
}

/// Reads an integer of at most `bits` bits, `bits > 0`.
pub open spec fn take_varint(s: Seq<u8>, bits: nat) -> Taken<nat>
    decreases s.len(),
{
    if s.len() == 0 {
        Err(DecodeError::UnexpectedEnd)
    } else if s[0] < 128 {
        if bits < 7 && s[0] >= pow2(bits) {
            Err(DecodeError::BadVarint)
        } else {
            Ok((s[0] as nat, s.skip(1)))
        }
    } else if bits <= 7 {
        Err(DecodeError::BadVarint)
    } else {
        match take_varint(s.skip(1), (bits - 7) as nat) {
            Ok((high, rest)) => Ok(((s[0] - 128 + 128 * high) as nat, rest)),
            Err(e) => Err(e),
        }
    }
}

/// Folds the signed integers onto the unsigned ones: 0, -1, 1, -2, ...
pub open spec fn zigzag(i: int) -> nat {
    if i >= 0 {
        (2 * i) as nat
    } else {
        (-2 * i - 1) as nat
    }
}

/// The signed integer that `zigzag` folds onto `n`.
pub open spec fn unzigzag(n: nat) -> int {
    if n % 2 == 0 {
        (n / 2) as int
    } else {
        -((n + 1) / 2)
    }
}

/// Reads a signed 32-bit integer.
pub open spec fn take_signed(s: Seq<u8>) -> Taken<int> {
    match take_varint(s, 32) {
        Ok((n, rest)) => Ok((unzigzag(n), rest)),
        Err(e) => Err(e),
    }
}

/// A string: its length in bytes, then its UTF-8.
pub open spec fn string_bytes(s: Seq<char>) -> Seq<u8> {
    varint(encode_utf8(s).len()) + encode_utf8(s)
}

/// Reads a string.
pub open spec fn take_string_spec(s: Seq<u8>) -> Taken<Seq<char>> {
    match take_varint(s, usize::BITS as nat) {
        Ok((n, rest)) => if rest.len() < n {
            Err(DecodeError::UnexpectedEnd)
        } else if !valid_utf8(rest.take(n as int)) {
            Err(DecodeError::BadUtf8)
        } else {
            Ok((decode_utf8(rest.take(n as int)), rest.skip(n as int)))
        },
        Err(e) => Err(e),
    }
}

/// The low `width` bytes of `n`, least significant first.
pub open spec fn le(n: nat, width: nat) -> Seq<u8>
    decreases width,
{
    if width == 0 {
        Seq::empty()
    } else {
        seq![(n % 256) as u8] + le(n / 256, (width - 1) as nat)
    }
}

/// The integer with these bytes, least significant first.
pub open spec fn le_value(s: Seq<u8>) -> nat
    decreases s.len(),
{
    if s.len() == 0 {
        0
    } else {
        (s[0] + 256 * le_value(s.skip(1))) as nat
    }
}

/// A coordinate: the eight bytes of its bit pattern, least significant first.
pub open spec fn bits_bytes(bits: u64) -> Seq<u8> {
    le(bits as nat, 8)
}

/// Reads a coordinate's bit pattern.
pub open spec fn take_bits_spec(s: Seq<u8>) -> Taken<u64> {
    if s.len() < 8 {
        Err(DecodeError::UnexpectedEnd)
    } else {
        Ok((le_value(s.take(8)) as u64, s.skip(8)))
    }
}

/// `postcard::to_allocvec` on a `u64`: the integer in groups of seven bits. The
/// narrower unsigned types and lengths have the same bytes for the same value.
#[verifier::external_body]
pub(crate) fn put_unsigned(n: u64) -> (r: Vec<u8>)
    ensures
        r@ == varint(n as nat),
{
    postcard::to_allocvec(&n).expect("encode integer")
}

/// `postcard::to_allocvec` on an `i32`: the folded integer in groups of seven bits.
#[verifier::external_body]
pub(crate) fn put_signed(i: i32) -> (r: Vec<u8>)
    ensures
        r@ == varint(zigzag(i as int)),
{
    postcard::to_allocvec(&i).expect("encode integer")
}

/// `postcard::to_allocvec` on a `str`: the length in bytes, then the UTF-8.
#[verifier::external_body]
pub(crate) fn put_string(s: &str) -> (r: Vec<u8>)
    ensures
        r@ == string_bytes(s@),
{
    postcard::to_allocvec(s).expect("encode string")
}

/// `postcard::take_from_bytes` for a `u16`: at most three groups, sixteen bits.
#[verifier::external_body]
pub(crate) fn take_u16(s: &[u8]) -> (r: Result<(u16, &[u8]), DecodeError>)
    ensures
        match r {
            Ok((v, rest)) => take_varint(s@, 16) == Ok::<(nat, Seq<u8>), DecodeError>((v as nat, rest@)),
            Err(e) => take_varint(s@, 16) == Err::<(nat, Seq<u8>), DecodeError>(e),
        },
{
    match postcard::take_from_bytes::<u16>(s) {
        Ok(taken) => Ok(taken),
        Err(postcard::Error::DeserializeUnexpectedEnd) => Err(DecodeError::UnexpectedEnd),
        Err(_) => Err(DecodeError::BadVarint),
    }
}

/// `postcard::take_from_bytes` for a `u32`: at most five groups, thirty-two bits.
#[verifier::external_body]
pub(crate) fn take_u32(s: &[u8]) -> (r: Result<(u32, &[u8]), DecodeError>)
    ensures
        match r {
            Ok((v, rest)) => take_varint(s@, 32) == Ok::<(nat, Seq<u8>), DecodeError>((v as nat, rest@)),
            Err(e) => take_varint(s@, 32) == Err::<(nat, Seq<u8>), DecodeError>(e),
        },
{
    match postcard::take_from_bytes::<u32>(s) {
        Ok(taken) => Ok(taken),
        Err(postcard::Error::DeserializeUnexpectedEnd) => Err(DecodeError::UnexpectedEnd),
        Err(_) => Err(DecodeError::BadVarint),
    }
}

/// `postcard::take_from_bytes` for a `u64`: at most ten groups, sixty-four bits.
#[verifier::external_body]
pub(crate) fn take_u64(s: &[u8]) -> (r: Result<(u64, &[u8]), DecodeError>)
    ensures
        match r {
            Ok((v, rest)) => take_varint(s@, 64) == Ok::<(nat, Seq<u8>), DecodeError>((v as nat, rest@)),
            Err(e) => take_varint(s@, 64) == Err::<(nat, Seq<u8>), DecodeError>(e),
        },
{
    match postcard::take_from_bytes::<u64>(s) {
        Ok(taken) => Ok(taken),
        Err(postcard::Error::DeserializeUnexpectedEnd) => Err(DecodeError::UnexpectedEnd),
        Err(_) => Err(DecodeError::BadVarint),
    }
}

/// `postcard::take_from_bytes` for an `i32`: a `u32`, unfolded.
#[verifier::external_body]
pub(crate) fn take_i32(s: &[u8]) -> (r: Result<(i32, &[u8]), DecodeError>)
    ensures
        match r {
            Ok((v, rest)) => take_signed(s@) == Ok::<(int, Seq<u8>), DecodeError>((v as int, rest@)),
            Err(e) => take_signed(s@) == Err::<(int, Seq<u8>), DecodeError>(e),
        },
{
    match postcard::take_from_bytes::<i32>(s) {
        Ok(taken) => Ok(taken),
        Err(postcard::Error::DeserializeUnexpectedEnd) => Err(DecodeError::UnexpectedEnd),
        Err(_) => Err(DecodeError::BadVarint),
    }
}

/// `postcard::take_from_bytes` for a `String`: a length of the machine's width,
/// then that many bytes, which have to be UTF-8.
#[verifier::external_body]
pub(crate) fn take_string(s: &[u8]) -> (r: Result<(String, &[u8]), DecodeError>)
    ensures
        match r {
            Ok((v, rest)) => take_string_spec(s@) == Ok::<(Seq<char>, Seq<u8>), DecodeError>((v@, rest@)),
            Err(e) => take_string_spec(s@) == Err::<(Seq<char>, Seq<u8>), DecodeError>(e),
        },
{
    match postcard::take_from_bytes::<String>(s) {
        Ok(taken) => Ok(taken),
        Err(postcard::Error::DeserializeUnexpectedEnd) => Err(DecodeError::UnexpectedEnd),
        Err(postcard::Error::DeserializeBadVarint) => Err(DecodeError::BadVarint),
        Err(_) => Err(DecodeError::BadUtf8),
    }
}

/// Reads a coordinate's bit pattern off the front of `s`.
pub(crate) fn take_bits(s: &[u8]) -> (r: Result<(u64, &[u8]), DecodeError>)
    ensures
        match r {
            Ok((v, rest)) => take_bits_spec(s@) == Ok::<(u64, Seq<u8>), DecodeError>((v, rest@)),
            Err(e) => take_bits_spec(s@) == Err::<(u64, Seq<u8>), DecodeError>(e),
        },
{
    if s.len() < 8 {
        return Err(DecodeError::UnexpectedEnd);
    }
    let (head, rest) = s.split_at(8);
    assert(head@ =~= s@.take(8));
    assert(rest@ =~= s@.skip(8));
    Ok((take_le(head), rest))
}

/// The low `width` bytes of `n`, least significant first.
pub(crate) fn put_le(n: u64, width: usize) -> (r: Vec<u8>)
    ensures
        r@ == le(n as nat, width as nat),
{
    let mut out: Vec<u8> = Vec::new();
    let mut m: u64 = n;
    let mut i: usize = 0;
    assert(out@ + le(m as nat, width as nat) =~= le(n as nat, width as nat));
    while i < width
        invariant
            i <= width,
            out@ + le(m as nat, (width - i) as nat) == le(n as nat, width as nat),
        decreases width - i,
    {
        let ghost before = out@;
        let ghost tail = le((m / 256) as nat, (width - i - 1) as nat);
        out.push((m % 256) as u8);
        assert(out@ + tail =~= before + (seq![(m % 256) as u8] + tail));
        m = m / 256;
        i = i + 1;
    }
    assert(out@ + le(m as nat, 0) =~= out@);
    out
}

/// The integer with these bytes, least significant first.
pub(crate) fn take_le(s: &[u8]) -> (r: u64)
    requires
        s@.len() <= 8,
    ensures
        r == le_value(s@),
        r < pow2(8 * s@.len()),
{
    let mut v: u64 = 0;
    let mut i: usize = s.len();
    proof {
        lemma2_to64();
    }
    while i > 0
        invariant
            i <= s@.len() <= 8,
            v == le_value(s@.skip(i as int)),
        decreases i,
    {
        i = i - 1;
        assert(s@.skip(i as int).skip(1) =~= s@.skip(i + 1));
        proof {
            lemma2_to64();
            lemma2_to64_rest();
            le_value_bound(s@.skip(i + 1));
            if i + 1 < s@.len() {
                lemma_pow2_adds(8, 8 * (s@.len() - i - 1) as nat);
            }
            le_value_bound(s@.skip(i as int));
            if 8 * (s@.len() - i) < 64 {
                lemma_pow2_strictly_increases(8 * (s@.len() - i) as nat, 64);
            }
        }
        v = v * 256 + s[i] as u64;
    }
    assert(s@.skip(0) =~= s@);
    proof {
        le_value_bound(s@);
    }
    v
}

proof fn le_value_bound(s: Seq<u8>)
    ensures
        le_value(s) < pow2(8 * s.len()),
    decreases s.len(),
{
    lemma2_to64();
    if s.len() > 0 {
        le_value_bound(s.skip(1));
        lemma_pow2_adds(8, 8 * (s.len() - 1) as nat);
        assert(pow2(8 * s.len()) == 256 * pow2(8 * (s.len() - 1) as nat));
    }
}

/// The bytes of an integer give the integer, if they are enough to hold it.
pub proof fn le_reads_back(n: nat, width: nat)
    requires
        n < pow2(8 * width),
    ensures
        le(n, width).len() == width,
        le_value(le(n, width)) == n,
    decreases width,
{
    lemma2_to64();
    if width > 0 {
        lemma_pow2_adds(8, 8 * (width - 1) as nat);
        assert(pow2(8 * width) == 256 * pow2(8 * (width - 1) as nat));
        le_reads_back(n / 256, (width - 1) as nat);
        assert(le(n, width).skip(1) =~= le(n / 256, (width - 1) as nat));
    }
}

/// What was written is read back, whatever follows it.
pub proof fn varint_reads_back(n: nat, bits: nat, rest: Seq<u8>)
    requires
        n < pow2(bits),
        bits > 0,
    ensures
        take_varint(varint(n) + rest, bits) == Ok::<(nat, Seq<u8>), DecodeError>((n, rest)),
    decreases n,
{
    let s = varint(n) + rest;
    if n < 128 {
        assert(s.skip(1) =~= rest);
    } else {
        lemma2_to64();
        if bits < 7 {
            lemma_pow2_strictly_increases(bits, 7);
        }
        lemma_pow2_adds(7, (bits - 7) as nat);
        assert(n / 128 < pow2((bits - 7) as nat)) by (nonlinear_arith)
            requires
                n < 128 * pow2((bits - 7) as nat),
        ;
        varint_reads_back(n / 128, (bits - 7) as nat, rest);
        assert(s.skip(1) =~= varint(n / 128) + rest);
        assert(s[0] == (n % 128 + 128) as u8);
    }
}

/// A signed integer is read back, whatever follows it.
pub proof fn signed_reads_back(i: i32, rest: Seq<u8>)
    ensures
        take_signed(varint(zigzag(i as int)) + rest) == Ok::<(int, Seq<u8>), DecodeError>(
            (i as int, rest),
        ),
{
    lemma2_to64();
    varint_reads_back(zigzag(i as int), 32, rest);
}

/// A string is read back, whatever follows it. Its length has to be one that a
/// machine word holds, as that of every string in memory is.
pub proof fn string_reads_back(s: Seq<char>, rest: Seq<u8>)
    requires
        encode_utf8(s).len() <= usize::MAX,
    ensures
        take_string_spec(string_bytes(s) + rest) == Ok::<(Seq<char>, Seq<u8>), DecodeError>(
            (s, rest),
        ),
{
    let bytes = encode_utf8(s);
    lemma2_to64();
    varint_reads_back(bytes.len(), usize::BITS as nat, bytes + rest);
    assert(string_bytes(s) + rest =~= varint(bytes.len()) + (bytes + rest));
    assert((bytes + rest).take(bytes.len() as int) =~= bytes);
    assert((bytes + rest).skip(bytes.len() as int) =~= rest);
    encode_utf8_valid_utf8(s);
    encode_utf8_decode_utf8(s);
}

/// A coordinate is read back, whatever follows it.
pub proof fn bits_read_back(bits: u64, rest: Seq<u8>)
    ensures
        bits_bytes(bits).len() == 8,
        take_bits_spec(bits_bytes(bits) + rest) == Ok::<(u64, Seq<u8>), DecodeError>((bits, rest)),
{
    lemma2_to64_rest();
    le_reads_back(bits as nat, 8);
    let b = bits_bytes(bits);
    assert((b + rest).take(8) =~= b);
    assert((b + rest).skip(8) =~= rest);
}

/// An integer of `7 * groups` bits takes at most `groups` bytes.
pub proof fn varint_length(n: nat, groups: nat)
    requires
        n < pow2(7 * groups),
        groups > 0,
    ensures
        1 <= varint(n).len() <= groups,
    decreases n,
{
    if n >= 128 {
        lemma2_to64();
        if groups > 1 {
            lemma_pow2_adds(7, (7 * groups - 7) as nat);
            assert(n / 128 < pow2((7 * groups - 7) as nat)) by (nonlinear_arith)
                requires
                    n < 128 * pow2((7 * groups - 7) as nat),
            ;
            varint_length(n / 128, (groups - 1) as nat);
        }
    }
}

/// Appends `more` to `out`.
pub(crate) fn extend(out: &mut Vec<u8>, more: Vec<u8>)
    ensures
        final(out)@ == old(out)@ + more@,
{
    let mut more = more;
    out.append(&mut more);
}

/// Each byte of an integer is the remainder by 256 of what its place leaves of it.
pub proof fn bytes_by_place(n: nat, width: nat, k: int)
    requires
        0 <= k < width,
    ensures
        le(n, width).len() == width,
        le(n, width)[k] == (n / pow2(8 * k as nat)) % 256,
    decreases width,
{
    lemma2_to64();
    le_length(n, width);
    if k > 0 {
        let low: nat = (k - 1) as nat;
        bytes_by_place(n / 256, (width - 1) as nat, k - 1);
        lemma_pow2_pos(8 * low);
        lemma_pow2_adds(8, 8 * low);
        lemma_div_denominator(n as int, 256, pow2(8 * low) as int);
        assert(8 + 8 * low == 8 * k as nat);
        assert(n / pow2(8 * k as nat) == (n / 256) / pow2(8 * low));
        assert(le(n, width)[k] == le(n / 256, (width - 1) as nat)[k - 1]);
    } else {
        assert(pow2(8 * k as nat) == 1);
        assert(n / pow2(8 * k as nat) == n);
    }
}

proof fn le_length(n: nat, width: nat)
    ensures
        le(n, width).len() == width,
    decreases width,
{
    if width > 0 {
        le_length(n / 256, (width - 1) as nat);
    }
}

/// Bytes are those of the integer that they give.
pub proof fn value_writes_back(s: Seq<u8>)
    ensures
        le(le_value(s), s.len()) == s,
    decreases s.len(),
{
    if s.len() > 0 {
        let tail = s.skip(1);
        value_writes_back(tail);
        assert(le_value(s) % 256 == s[0]);
        assert(le_value(s) / 256 == le_value(tail));
        assert(seq![s[0]] + tail =~= s);
    } else {
        assert(le(le_value(s), 0) =~= s);
    }
}

/// An integer in groups: the top bit of each byte says whether another follows, and the
/// last group of several is not empty.
pub proof fn groups_are_marked(n: nat, k: int)
    requires
        0 <= k < varint(n).len(),
    ensures
        varint(n)[k] < 128 <==> k == varint(n).len() - 1,
        varint(n).len() > 1 ==> varint(n).last() != 0,
        varint(n).len() == 1 <==> n < 128,
        varint(n)[0] % 128 == n % 128,
    decreases n,
{
    if n >= 128 {
        let tail = varint(n / 128);
        assert(varint(n) =~= seq![(n % 128 + 128) as u8] + tail);
        varint_not_empty(n / 128);
        groups_are_marked(n / 128, 0);
        if k > 0 {
            groups_are_marked(n / 128, k - 1);
        }
    }
}

proof fn varint_not_empty(n: nat)
    ensures
        varint(n).len() > 0,
{
}

/// The signed integers are folded by their size: zero onto zero, the negative ones onto
/// the odd numbers in between the positive ones.
pub proof fn folding_is_by_size(i: int)
    ensures
        zigzag(0) == 0,
        i >= 0 ==> zigzag(i + 1) == zigzag(i) + 2,
        i > 0 ==> zigzag(-i) == zigzag(i) - 1,
        unzigzag(zigzag(i)) == i,
{
}

/// What reading does with bytes that were cut off: the value is there as before, with as
/// much behind it as is left, or else the bytes have ended inside it.
pub open spec fn cut<T>(s: Seq<u8>, k: int, taken: Taken<T>, of_cut: Taken<T>) -> bool {
    taken matches Ok((v, rest)) ==> {
        let used = s.len() - rest.len();
        &&& 0 <= used
        &&& if k < used {
            of_cut == Err::<(T, Seq<u8>), DecodeError>(DecodeError::UnexpectedEnd)
        } else {
            of_cut == Ok::<(T, Seq<u8>), DecodeError>((v, rest.take(k - used)))
        }
    }
}

/// An integer that was cut off is none.
pub proof fn cut_varint(s: Seq<u8>, bits: nat, k: int)
    requires
        0 <= k <= s.len(),
    ensures
        cut(s, k, take_varint(s, bits), take_varint(s.take(k), bits)),
    decreases s.len(),
{
    if s.len() > 0 && k > 0 {
        assert(s.take(k)[0] == s[0]);
        assert(s.take(k).skip(1) =~= s.skip(1).take(k - 1));
        if s[0] >= 128 && bits > 7 {
            cut_varint(s.skip(1), (bits - 7) as nat, k - 1);
        }
    } else if s.len() > 0 {
        assert(s.take(k).len() == 0);
        varint_uses(s, bits);
    }
}

proof fn varint_uses(s: Seq<u8>, bits: nat)
    ensures
        take_varint(s, bits) matches Ok((_, rest)) ==> rest.len() < s.len(),
    decreases s.len(),
{
    if s.len() > 0 && s[0] >= 128 && bits > 7 {
        varint_uses(s.skip(1), (bits - 7) as nat);
    }
}

/// A signed integer that was cut off is none.
pub proof fn cut_signed(s: Seq<u8>, k: int)
    requires
        0 <= k <= s.len(),
    ensures
        cut(s, k, take_signed(s), take_signed(s.take(k))),
{
    cut_varint(s, 32, k);
}

/// A string that was cut off is none.
pub proof fn cut_string(s: Seq<u8>, k: int)
    requires
        0 <= k <= s.len(),
    ensures
        cut(s, k, take_string_spec(s), take_string_spec(s.take(k))),
{
    cut_varint(s, usize::BITS as nat, k);
    if let Ok((n, rest)) = take_varint(s, usize::BITS as nat) {
        let used = s.len() - rest.len();
        if k >= used {
            let left = rest.take(k - used);
            if n <= left.len() {
                assert(left.take(n as int) =~= rest.take(n as int));
                assert(left.skip(n as int) =~= rest.skip(n as int).take(k - used - n));
            }
        }
    }
}

/// A coordinate that was cut off is none.
pub proof fn cut_bits(s: Seq<u8>, k: int)
    requires
        0 <= k <= s.len(),
    ensures
        cut(s, k, take_bits_spec(s), take_bits_spec(s.take(k))),
{
    if 8 <= k {
        assert(s.take(k).take(8) =~= s.take(8));
        assert(s.take(k).skip(8) =~= s.skip(8).take(k - 8));
    }
}

} // verus!
