//! Little-endian decoding of a byte sequence, as mathematical functions.
//!
//! Every reader takes the sequence and a position and yields `None` when
//! fewer bytes than it needs are left at that position.
use vstd::prelude::*;

verus! {

/// `n` bytes are available in `s` at position `p`.
pub open spec fn avail(s: Seq<u8>, p: int, n: int) -> bool {
    0 <= p && 0 <= n && p + n <= s.len()
}

/// The unsigned value of the two bytes at `p`, least significant first.
pub open spec fn le16(s: Seq<u8>, p: int) -> int {
    s[p] as int + 256 * (s[p + 1] as int)
}

/// The unsigned value of the four bytes at `p`, least significant first.
pub open spec fn le32(s: Seq<u8>, p: int) -> int {
    s[p] as int + 256 * (s[p + 1] as int) + 65536 * (s[p + 2] as int) + 16777216 * (s[p + 3] as int)
}

/// Two's complement reading of an 8-bit pattern.
pub open spec fn signed8(u: int) -> int {
    if u >= 128 {
        u - 256
    } else {
        u
    }
}

/// Two's complement reading of a 16-bit pattern.
pub open spec fn signed16(u: int) -> int {
    if u >= 32768 {
        u - 65536
    } else {
        u
    }
}

/// Two's complement reading of a 32-bit pattern.
pub open spec fn signed32(u: int) -> int {
    if u >= 0x8000_0000 {
        u - 0x1_0000_0000
    } else {
        u
    }
}

/// The byte at `p`.
pub open spec fn read_u8(s: Seq<u8>, p: int) -> Option<u8> {
    if avail(s, p, 1) {
        Some(s[p])
    } else {
        None
    }
}

/// The signed byte at `p`.
pub open spec fn read_i8(s: Seq<u8>, p: int) -> Option<i8> {
    if avail(s, p, 1) {
        Some(signed8(s[p] as int) as i8)
    } else {
        None
    }
}

/// The 16-bit number at `p`.
pub open spec fn read_u16(s: Seq<u8>, p: int) -> Option<u16> {
    if avail(s, p, 2) {
        Some(le16(s, p) as u16)
    } else {
        None
    }
}

/// The signed 16-bit number at `p`.
pub open spec fn read_i16(s: Seq<u8>, p: int) -> Option<i16> {
    if avail(s, p, 2) {
        Some(signed16(le16(s, p)) as i16)
    } else {
        None
    }
}

/// The 32-bit number at `p`.
pub open spec fn read_u32(s: Seq<u8>, p: int) -> Option<u32> {
    if avail(s, p, 4) {
        Some(le32(s, p) as u32)
    } else {
        None
    }
}

/// The signed 32-bit number at `p`.
pub open spec fn read_i32(s: Seq<u8>, p: int) -> Option<i32> {
    if avail(s, p, 4) {
        Some(signed32(le32(s, p)) as i32)
    } else {
        None
    }
}

/// Some byte of `s[p .. p + n]` is not zero.
pub open spec fn any_nonzero(s: Seq<u8>, p: int, n: int) -> bool {
    exists|i: int| p <= i < p + n && #[trigger] s[i] != 0
}

/// A flag stored in `n` bytes: true when any of them is not zero.
pub open spec fn read_bool(s: Seq<u8>, p: int, n: int) -> Option<bool> {
    if avail(s, p, n) {
        Some(any_nonzero(s, p, n))
    } else {
        None
    }
}

/// A position moved by `delta` and held inside `[0, len]`.
pub open spec fn clamp_pos(len: int, p: int, delta: int) -> int {
    if p + delta < 0 {
        0
    } else if p + delta > len {
        len
    } else {
        p + delta
    }
}

/// The text of a string field of `n > 0` bytes at `p`: the bytes themselves,
/// without the last one when that is a NUL.
pub open spec fn str_text(s: Seq<u8>, p: int, n: int) -> Seq<u8> {
    if s[p + n - 1] == 0 {
        s.subrange(p, p + n - 1)
    } else {
        s.subrange(p, p + n)
    }
}

/// What a length-prefixed string read yields: the text, if any, and the
/// position after the read.
pub struct StrRead {
    pub text: Option<Seq<u8>>,
    pub next: int,
}

/// A string whose length `n` was read from a prefix that ends at `p`.
/// A length of zero or one that overruns the data yields no text and leaves
/// the position after the prefix.
pub open spec fn str_after_prefix(s: Seq<u8>, p: int, n: int) -> StrRead {
    if n <= 0 || !avail(s, p, n) {
        StrRead { text: None, next: p }
    } else {
        StrRead { text: Some(str_text(s, p, n)), next: p + n }
    }
}

/// A string with a signed 32-bit length prefix.
pub open spec fn read_str_l32(s: Seq<u8>, p: int) -> StrRead {
    match read_i32(s, p) {
        None => StrRead { text: None, next: p },
        Some(n) => str_after_prefix(s, p + 4, n as int),
    }
}

/// A string with an unsigned 16-bit length prefix.
pub open spec fn read_str_l16(s: Seq<u8>, p: int) -> StrRead {
    match read_u16(s, p) {
        None => StrRead { text: None, next: p },
        Some(n) => str_after_prefix(s, p + 2, n as int),
    }
}

/// `needle` stands in `hay` at position `p`.
pub open spec fn occurs_at(hay: Seq<u8>, needle: Seq<u8>, p: int) -> bool {
    0 <= p && p + needle.len() <= hay.len() && hay.subrange(p, p + needle.len()) == needle
}

/// `p` is the first position at which the non-empty `needle` stands in `hay`.
pub open spec fn is_first_match(hay: Seq<u8>, needle: Seq<u8>, p: int) -> bool {
    &&& needle.len() > 0
    &&& occurs_at(hay, needle, p)
    &&& forall|q: int| 0 <= q < p ==> !occurs_at(hay, needle, q)
}

/// `p` is the last position at which the non-empty `needle` stands in `hay`.
pub open spec fn is_last_match(hay: Seq<u8>, needle: Seq<u8>, p: int) -> bool {
    &&& needle.len() > 0
    &&& occurs_at(hay, needle, p)
    &&& forall|q: int| p < q ==> !occurs_at(hay, needle, q)
}

/// `needle` is empty or stands nowhere in `hay`.
pub open spec fn no_match(hay: Seq<u8>, needle: Seq<u8>) -> bool {
    needle.len() == 0 || forall|q: int| !occurs_at(hay, needle, q)
}

/// The first position of `needle` in `hay`, if it stands there at all.
#[verifier::opaque]
pub open spec fn first_match(hay: Seq<u8>, needle: Seq<u8>) -> Option<int> {
    if exists|p: int| is_first_match(hay, needle, p) {
        Some(choose|p: int| is_first_match(hay, needle, p))
    } else {
        None
    }
}

/// The last position of `needle` in `hay`, if it stands there at all.
#[verifier::opaque]
pub open spec fn last_match(hay: Seq<u8>, needle: Seq<u8>) -> Option<int> {
    if exists|p: int| is_last_match(hay, needle, p) {
        Some(choose|p: int| is_last_match(hay, needle, p))
    } else {
        None
    }
}

/// A range `[lo, hi)` that lies inside data of length `len`.
pub open spec fn range_ok(len: int, lo: int, hi: int) -> bool {
    0 <= lo <= hi <= len
}

/// First position of `needle` inside `data[lo .. hi]`, counted from the start
/// of `data`. A range that does not lie inside the data holds no match.
pub open spec fn find_in(data: Seq<u8>, needle: Seq<u8>, lo: int, hi: int) -> Option<int> {
    if range_ok(data.len() as int, lo, hi) {
        match first_match(data.subrange(lo, hi), needle) {
            Some(p) => Some(p + lo),
            None => None,
        }
    } else {
        None
    }
}

/// Last position of `needle` inside `data[lo .. hi]`, counted from the start
/// of `data`. A range that does not lie inside the data holds no match.
pub open spec fn rfind_in(data: Seq<u8>, needle: Seq<u8>, lo: int, hi: int) -> Option<int> {
    if range_ok(data.len() as int, lo, hi) {
        match last_match(data.subrange(lo, hi), needle) {
            Some(p) => Some(p + lo),
            None => None,
        }
    } else {
        None
    }
}

/// A first match is the only first match, so `first_match` names it.
pub proof fn lemma_first_match_is(hay: Seq<u8>, needle: Seq<u8>, p: int)
    requires
        is_first_match(hay, needle, p),
    ensures
        first_match(hay, needle) == Some(p),
{
    reveal(first_match);
    let c = choose|c: int| is_first_match(hay, needle, c);
    assert(is_first_match(hay, needle, c));
    if c < p {
        assert(!occurs_at(hay, needle, c));
    }
    if p < c {
        assert(!occurs_at(hay, needle, p));
    }
}

/// A last match is the only last match, so `last_match` names it.
pub proof fn lemma_last_match_is(hay: Seq<u8>, needle: Seq<u8>, p: int)
    requires
        is_last_match(hay, needle, p),
    ensures
        last_match(hay, needle) == Some(p),
{
    reveal(last_match);
    let c = choose|c: int| is_last_match(hay, needle, c);
    assert(is_last_match(hay, needle, c));
    if c < p {
        assert(!occurs_at(hay, needle, p));
    }
    if p < c {
        assert(!occurs_at(hay, needle, c));
    }
}

/// Where nothing matches, `first_match` and `last_match` are `None`.
pub proof fn lemma_no_match_is(hay: Seq<u8>, needle: Seq<u8>)
    requires
        no_match(hay, needle),
    ensures
        first_match(hay, needle).is_none(),
        last_match(hay, needle).is_none(),
{
    reveal(first_match);
    reveal(last_match);
    if exists|p: int| is_first_match(hay, needle, p) {
        let p = choose|p: int| is_first_match(hay, needle, p);
        assert(occurs_at(hay, needle, p));
    }
    if exists|p: int| is_last_match(hay, needle, p) {
        let p = choose|p: int| is_last_match(hay, needle, p);
        assert(occurs_at(hay, needle, p));
    }
}

/// A match found by `find_in` lies inside the range and the needle stands there.
pub proof fn lemma_find_in_bounds(data: Seq<u8>, needle: Seq<u8>, lo: int, hi: int)
    ensures
        match find_in(data, needle, lo, hi) {
            Some(p) => lo <= p && p + needle.len() <= hi && hi <= data.len() && occurs_at(
                data,
                needle,
                p,
            ),
            None => true,
        },
        match rfind_in(data, needle, lo, hi) {
            Some(p) => lo <= p && p + needle.len() <= hi && hi <= data.len() && occurs_at(
                data,
                needle,
                p,
            ),
            None => true,
        },
{
    reveal(first_match);
    reveal(last_match);
    if range_ok(data.len() as int, lo, hi) {
        let sub = data.subrange(lo, hi);
        if exists|p: int| is_first_match(sub, needle, p) {
            let p = choose|p: int| is_first_match(sub, needle, p);
            assert(sub.subrange(p, p + needle.len()) =~= data.subrange(
                p + lo,
                p + lo + needle.len(),
            ));
        }
        if exists|p: int| is_last_match(sub, needle, p) {
            let p = choose|p: int| is_last_match(sub, needle, p);
            assert(sub.subrange(p, p + needle.len()) =~= data.subrange(
                p + lo,
                p + lo + needle.len(),
            ));
        }
    }
}

} // verus!
