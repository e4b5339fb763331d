//! A read cursor over an owned byte buffer.
//!
//! The buffer (the source) may start with an envelope that is not part of the
//! data: `offset` is where the data starts. All positions handed out and taken
//! are relative to the start of the data.
use crate::bytes::{
    any_nonzero, avail, clamp_pos, find_in, is_first_match, is_last_match,
    lemma_first_match_is, lemma_last_match_is, lemma_no_match_is, no_match, read_bool, read_i16,
    read_i32, read_i8, read_str_l16, read_str_l32, read_u16, read_u32, read_u8, rfind_in,
    signed16, signed32, signed8, str_text,
};
use boyer_moore_magiclen::BMByte;
use std::ops::Range;
use vstd::prelude::*;
use vstd::slice::slice_subrange;

verus! {

/// What a cursor is, mathematically: the source, where the data starts in it,
/// and the current position inside the data.
pub struct CursorView {
    pub src: Seq<u8>,
    pub offset: nat,
    pub pos: nat,
}

impl CursorView {
    /// The data: the source from `offset` on.
    pub open spec fn data(self) -> Seq<u8> {
        self.src.skip(self.offset as int)
    }

    /// The data starts inside the source and the position lies inside the data.
    pub open spec fn wf(self) -> bool {
        self.offset <= self.src.len() && self.pos <= self.src.len() - self.offset
    }

    /// The same cursor at position `p`.
    pub open spec fn at(self, p: int) -> CursorView {
        CursorView { pos: p as nat, ..self }
    }

    /// The same cursor moved by `delta`, held inside the data.
    pub open spec fn moved(self, delta: int) -> CursorView {
        self.at(clamp_pos(self.data().len() as int, self.pos as int, delta))
    }

    /// The same cursor at `min(p, data length)`.
    pub open spec fn sought(self, p: int) -> CursorView {
        self.at(
            if p < self.data().len() {
                p
            } else {
                self.data().len() as int
            },
        )
    }

    /// Bytes left between the position and the end of the data.
    pub open spec fn remain(self) -> int {
        self.data().len() - self.pos
    }
}

/// The view of an optional byte string.
pub open spec fn opt_bytes(o: Option<Vec<u8>>) -> Option<Seq<u8>> {
    match o {
        Some(v) => Some(v@),
        None => None,
    }
}

/// Source stream is not data stream: the data stream is the part of the
/// source from `offset` on, and every operation works on the data stream.
pub struct StreamCursor {
    src: Vec<u8>,
    pos_in_data: usize,
    offset: usize,
}

impl View for StreamCursor {
    type V = CursorView;

    closed spec fn view(&self) -> CursorView {
        let offset = if self.offset <= self.src@.len() {
            self.offset as nat
        } else {
            self.src@.len()
        };
        let room = (self.src@.len() - offset) as nat;
        CursorView {
            src: self.src@,
            offset,
            pos: if self.pos_in_data <= room {
                self.pos_in_data as nat
            } else {
                room
            },
        }
    }
}

/// Runs `BMByte::from(needle)` and then `find_first_in` of boyer_moore_magiclen
/// on a copy of `hay`. Claimed of them: an empty needle builds no searcher and
/// gives `None`; otherwise the result is the lowest index at which the needle
/// stands in `hay`, or `None` where it stands nowhere.
#[verifier::external_body]
fn bm_find_first(needle: &Vec<u8>, hay: &[u8]) -> (r: Option<usize>)
    ensures
        match r {
            Some(p) => is_first_match(hay@, needle@, p as int),
            None => no_match(hay@, needle@),
        },
{
    let text: Vec<u8> = hay.to_vec();
    let searcher = BMByte::from(needle)?;
    searcher.find_first_in(&text)
}

/// Runs `BMByte::from(needle)` and then `rfind_first_in` of
/// boyer_moore_magiclen on a copy of `hay`. Claimed of them: an empty needle
/// builds no searcher and gives `None`; otherwise the result is the highest
/// index at which the needle stands in `hay`, or `None` where it stands
/// nowhere.
#[verifier::external_body]
fn bm_rfind_first(needle: &Vec<u8>, hay: &[u8]) -> (r: Option<usize>)
    ensures
        match r {
            Some(p) => is_last_match(hay@, needle@, p as int),
            None => no_match(hay@, needle@),
        },
{
    let text: Vec<u8> = hay.to_vec();
    let searcher = BMByte::from(needle)?;
    searcher.rfind_first_in(&text)
}

/// The signed reading of an 8-bit pattern.
pub fn i8_of(u: u8) -> (r: i8)
    ensures
        r == signed8(u as int),
{
    if u >= 128 {
        ((u - 128) as i8) - 127 - 1
    } else {
        u as i8
    }
}

/// The signed reading of a 16-bit pattern.
pub fn i16_of(u: u16) -> (r: i16)
    ensures
        r == signed16(u as int),
{
    if u >= 32768 {
        ((u - 32768) as i16) - 32767 - 1
    } else {
        u as i16
    }
}

/// The signed reading of a 32-bit pattern.
pub fn i32_of(u: u32) -> (r: i32)
    ensures
        r == signed32(u as int),
{
    if u >= 0x8000_0000 {
        ((u - 0x8000_0000) as i32) - 0x7fff_ffff - 1
    } else {
        u as i32
    }
}

impl StreamCursor {
    #[verifier::type_invariant]
    spec fn inv(self) -> bool {
        self.offset <= self.src@.len() && self.pos_in_data <= self.src@.len() - self.offset
    }

    /// The position of a cursor lies inside its data.
    pub proof fn lemma_wf(&self)
        ensures
            self@.wf(),
    {
    }

    /// A cursor at the start of the data, which starts at `offset` in `src`.
    /// An `offset` beyond the end of `src` leaves the data empty.
    pub fn new(src: Vec<u8>, offset: usize) -> (c: Self)
        ensures
            c@.src == src@,
            c@.offset == if offset <= src@.len() {
                offset as int
            } else {
                src@.len() as int
            },
            c@.pos == 0,
            c@.wf(),
    {
        let start: usize = if offset <= src.len() {
            offset
        } else {
            src.len()
        };
        StreamCursor { src, pos_in_data: 0, offset: start }
    }

    /// The whole source, envelope included.
    pub fn source(&self) -> (s: &Vec<u8>)
        ensures
            s@ == self@.src,
            self@.wf(),
    {
        proof {
            use_type_invariant(self);
        }
        &self.src
    }

    /// Where the data starts in the source.
    pub fn offset(&self) -> (o: usize)
        ensures
            o == self@.offset,
            self@.wf(),
    {
        proof {
            use_type_invariant(self);
        }
        self.offset
    }

    /// Moves the position by `dist`, which may be negative, and holds it
    /// inside the data.
    pub fn mov_by(&mut self, dist: i128)
        ensures
            final(self)@ == old(self)@.moved(dist as int),
            final(self)@.wf(),
    {
        proof {
            use_type_invariant(&*self);
        }
        let len: usize = self.src.len() - self.offset;
        if dist >= 0 {
            let room: usize = len - self.pos_in_data;
            if dist >= room as i128 {
                self.pos_in_data = len;
            } else {
                self.pos_in_data = self.pos_in_data + (dist as usize);
            }
        } else {
            if dist <= -(self.pos_in_data as i128) {
                self.pos_in_data = 0;
            } else {
                self.pos_in_data = self.pos_in_data - ((-dist) as usize);
            }
        }
        assert(self@.src.skip(self@.offset as int).len() == len);
    }

    /// Moves the position by `dist`, which may be negative, and holds it
    /// inside the data.
    pub fn mov(&mut self, dist: isize) -> (ret: &mut Self)
        ensures
            *final(self) == *final(ret),
            ret@ == old(self)@.moved(dist as int),
            ret@.wf(),
    {
        self.mov_by(dist as i128);
        self
    }

    /// Start from offset: the data stream.
    pub fn data(&self) -> (d: &[u8])
        ensures
            d@ == self@.data(),
            self@.wf(),
    {
        proof {
            use_type_invariant(self);
        }
        let d = slice_subrange(self.src.as_slice(), self.offset, self.src.len());
        assert(d@ =~= self@.data());
        d
    }

    /// The data from the position on.
    pub fn current(&self) -> (d: &[u8])
        ensures
            d@ == self@.data().skip(self@.pos as int),
            self@.wf(),
    {
        proof {
            use_type_invariant(self);
        }
        let total: usize = self.src.len();
        let d = slice_subrange(self.src.as_slice(), self.offset + self.pos_in_data, total);
        assert(d@ =~= self@.data().skip(self@.pos as int));
        d
    }

    /// Sets the position to `pos_in_data`, or to the end of the data where
    /// that lies beyond it.
    pub fn seek(&mut self, pos_in_data: usize) -> (ret: &mut Self)
        ensures
            *final(self) == *final(ret),
            ret@ == old(self)@.sought(pos_in_data as int),
            ret@.wf(),
    {
        proof {
            use_type_invariant(&*self);
        }
        let len: usize = self.src.len() - self.offset;
        assert(self@.src.skip(self@.offset as int).len() == len);
        self.pos_in_data = if pos_in_data < len {
            pos_in_data
        } else {
            len
        };
        self
    }

    /// The position in the data stream.
    pub fn tell(&self) -> (p: usize)
        ensures
            p == self@.pos,
            self@.wf(),
    {
        proof {
            use_type_invariant(self);
        }
        self.pos_in_data
    }

    /// Bytes left from the position to the end of the data.
    pub fn remain(&self) -> (n: usize)
        ensures
            n == self@.remain(),
            self@.wf(),
    {
        proof {
            use_type_invariant(self);
        }
        assert(self@.src.skip(self@.offset as int).len() == self.src@.len() - self.offset);
        self.src.len() - self.pos_in_data - self.offset
    }

    /// Length of the data stream.
    pub fn data_len(&self) -> (n: usize)
        ensures
            n == self@.data().len(),
            self@.wf(),
    {
        proof {
            use_type_invariant(self);
        }
        assert(self@.src.skip(self@.offset as int).len() == self.src@.len() - self.offset);
        self.src.len() - self.offset
    }

    /// Position of the first occurrence of `needle` inside the `range` of the data,
    /// counted from the start of the data. An empty needle, or a range that
    /// does not lie inside the data, finds nothing.
    pub fn find(&self, needle: Vec<u8>, range: Range<usize>) -> (r: Option<usize>)
        ensures
            r.is_some() == find_in(
                self@.data(),
                needle@,
                range.start as int,
                range.end as int,
            ).is_some(),
            r matches Some(p) ==> find_in(
                self@.data(),
                needle@,
                range.start as int,
                range.end as int,
            ) == Some(p as int),
            self@.wf(),
    {
        let start: usize = range.start;
        let end: usize = range.end;
        proof {
            use_type_invariant(self);
        }
        let len: usize = self.src.len() - self.offset;
        assert(self@.data().len() == len);
        if start > end || end > len {
            return None;
        }
        let hay = slice_subrange(self.src.as_slice(), self.offset + start, self.offset + end);
        assert(hay@ =~= self@.data().subrange(start as int, end as int));
        match bm_find_first(&needle, hay) {
            Some(p) => {
                proof {
                    lemma_first_match_is(hay@, needle@, p as int);
                }
                Some(p + start)
            },
            None => {
                proof {
                    lemma_no_match_is(hay@, needle@);
                }
                None
            },
        }
    }

    /// Position of the last occurrence of `needle` inside the `range` of the data,
    /// counted from the start of the data. An empty needle, or a range that
    /// does not lie inside the data, finds nothing.
    pub fn rfind(&self, needle: &Vec<u8>, range: Range<usize>) -> (r: Option<usize>)
        ensures
            r.is_some() == rfind_in(
                self@.data(),
                needle@,
                range.start as int,
                range.end as int,
            ).is_some(),
            r matches Some(p) ==> rfind_in(
                self@.data(),
                needle@,
                range.start as int,
                range.end as int,
            ) == Some(p as int),
            self@.wf(),
    {
        let start: usize = range.start;
        let end: usize = range.end;
        proof {
            use_type_invariant(self);
        }
        let len: usize = self.src.len() - self.offset;
        assert(self@.data().len() == len);
        if start > end || end > len {
            return None;
        }
        let hay = slice_subrange(self.src.as_slice(), self.offset + start, self.offset + end);
        assert(hay@ =~= self@.data().subrange(start as int, end as int));
        match bm_rfind_first(needle, hay) {
            Some(p) => {
                proof {
                    lemma_last_match_is(hay@, needle@, p as int);
                }
                Some(p + start)
            },
            None => {
                proof {
                    lemma_no_match_is(hay@, needle@);
                }
                None
            },
        }
    }

    /// The byte `k` places after the position.
    fn byte_at(&self, k: usize) -> (b: u8)
        requires
            self@.pos + k < self@.data().len(),
        ensures
            b == self@.data()[self@.pos + k],
    {
        proof {
            use_type_invariant(self);
        }
        let total: usize = self.src.len();
        assert(self@.data().len() == total - self.offset);
        self.src[self.offset + self.pos_in_data + k]
    }

    /// Moves forward by `n` bytes that are known to be there.
    fn step(&mut self, n: usize)
        requires
            old(self)@.pos + n <= old(self)@.data().len(),
        ensures
            final(self)@ == old(self)@.at(old(self)@.pos + n),
            final(self)@.wf(),
    {
        proof {
            use_type_invariant(&*self);
        }
        let total: usize = self.src.len();
        assert(self@.data().len() == total - self.offset);
        self.pos_in_data = self.pos_in_data + n;
    }

    /// The next byte, without moving.
    pub fn peek_u8(&self) -> (r: Option<u8>)
        ensures
            r == read_u8(self@.data(), self@.pos as int),
            self@.wf(),
    {
        if self.remain() < 1 {
            None
        } else {
            Some(self.byte_at(0))
        }
    }

    /// Reads a byte.
    pub fn get_u8(&mut self) -> (r: Option<u8>)
        ensures
            r == read_u8(old(self)@.data(), old(self)@.pos as int),
            final(self)@ == old(self)@.at(
                old(self)@.pos + if r.is_some() {
                    1int
                } else {
                    0
                },
            ),
            final(self)@.wf(),
    {
        let result = self.peek_u8();
        if result.is_some() {
            self.step(1);
        }
        result
    }

    /// Reads a signed byte.
    pub fn get_i8(&mut self) -> (r: Option<i8>)
        ensures
            r == read_i8(old(self)@.data(), old(self)@.pos as int),
            final(self)@ == old(self)@.at(
                old(self)@.pos + if r.is_some() {
                    1int
                } else {
                    0
                },
            ),
            final(self)@.wf(),
    {
        match self.get_u8() {
            Some(b) => Some(i8_of(b)),
            None => None,
        }
    }

    /// The next two bytes as a number, least significant byte first, without moving.
    pub fn peek_u16(&self) -> (r: Option<u16>)
        ensures
            r == read_u16(self@.data(), self@.pos as int),
            self@.wf(),
    {
        if self.remain() < 2 {
            None
        } else {
            let b0: u8 = self.byte_at(0);
            let b1: u8 = self.byte_at(1);
            Some((b0 as u16) + 256 * (b1 as u16))
        }
    }

    /// Reads two bytes as a number, least significant byte first.
    pub fn get_u16(&mut self) -> (r: Option<u16>)
        ensures
            r == read_u16(old(self)@.data(), old(self)@.pos as int),
            final(self)@ == old(self)@.at(
                old(self)@.pos + if r.is_some() {
                    2int
                } else {
                    0
                },
            ),
            final(self)@.wf(),
    {
        let result = self.peek_u16();
        if result.is_some() {
            self.step(2);
        }
        result
    }

    /// Reads two bytes as a signed number, least significant byte first.
    pub fn get_i16(&mut self) -> (r: Option<i16>)
        ensures
            r == read_i16(old(self)@.data(), old(self)@.pos as int),
            final(self)@ == old(self)@.at(
                old(self)@.pos + if r.is_some() {
                    2int
                } else {
                    0
                },
            ),
            final(self)@.wf(),
    {
        match self.get_u16() {
            Some(u) => Some(i16_of(u)),
            None => None,
        }
    }

    /// The next four bytes as a number, least significant byte first, without moving.
    pub fn peek_u32(&self) -> (r: Option<u32>)
        ensures
            r == read_u32(self@.data(), self@.pos as int),
            self@.wf(),
    {
        if self.remain() < 4 {
            None
        } else {
            let b0: u8 = self.byte_at(0);
            let b1: u8 = self.byte_at(1);
            let b2: u8 = self.byte_at(2);
            let b3: u8 = self.byte_at(3);
            Some((b0 as u32) + 256 * (b1 as u32) + 65536 * (b2 as u32) + 16777216 * (b3 as u32))
        }
    }

    /// Reads four bytes as a number, least significant byte first.
    pub fn get_u32(&mut self) -> (r: Option<u32>)
        ensures
            r == read_u32(old(self)@.data(), old(self)@.pos as int),
            final(self)@ == old(self)@.at(
                old(self)@.pos + if r.is_some() {
                    4int
                } else {
                    0
                },
            ),
            final(self)@.wf(),
    {
        let result = self.peek_u32();
        if result.is_some() {
            self.step(4);
        }
        result
    }

    /// The next four bytes as a signed number, least significant byte first, without
    /// moving.
    pub fn peek_i32(&self) -> (r: Option<i32>)
        ensures
            r == read_i32(self@.data(), self@.pos as int),
            self@.wf(),
    {
        match self.peek_u32() {
            Some(u) => Some(i32_of(u)),
            None => None,
        }
    }

    /// Reads four bytes as a signed number, least significant byte first.
    pub fn get_i32(&mut self) -> (r: Option<i32>)
        ensures
            r == read_i32(old(self)@.data(), old(self)@.pos as int),
            final(self)@ == old(self)@.at(
                old(self)@.pos + if r.is_some() {
                    4int
                } else {
                    0
                },
            ),
            final(self)@.wf(),
    {
        let result = self.peek_i32();
        if result.is_some() {
            self.step(4);
        }
        result
    }

    /// The next four bytes as the bit pattern of a single-precision number,
    /// least significant byte first.
    pub fn peek_f32(&self) -> (r: Option<u32>)
        ensures
            r == read_u32(self@.data(), self@.pos as int),
            self@.wf(),
    {
        self.peek_u32()
    }

    /// Reads four bytes as the bit pattern of a single-precision number,
    /// least significant byte first.
    pub fn get_f32(&mut self) -> (r: Option<u32>)
        ensures
            r == read_u32(old(self)@.data(), old(self)@.pos as int),
            final(self)@ == old(self)@.at(
                old(self)@.pos + if r.is_some() {
                    4int
                } else {
                    0
                },
            ),
            final(self)@.wf(),
    {
        self.get_u32()
    }

    /// Reads a flag of `bytes` bytes: true when any of them is not zero.
    /// With fewer bytes left nothing is read.
    pub fn get_bool(&mut self, bytes: u8) -> (r: Option<bool>)
        ensures
            r == read_bool(old(self)@.data(), old(self)@.pos as int, bytes as int),
            final(self)@ == old(self)@.at(
                old(self)@.pos + if r.is_some() {
                    bytes as int
                } else {
                    0
                },
            ),
            final(self)@.wf(),
    {
        let n: usize = bytes as usize;
        if self.remain() < n {
            return None;
        }
        let mut result = false;
        let mut i: usize = 0;
        while i < n
            invariant
                i <= n,
                self@.pos + n <= self@.data().len(),
                result == any_nonzero(self@.data(), self@.pos as int, i as int),
            decreases n - i,
        {
            if self.byte_at(i) != 0 {
                result = true;
            }
            i = i + 1;
        }
        self.step(n);
        Some(result)
    }

    /// Copies the next `n` bytes without moving. With fewer bytes left there
    /// is nothing to copy.
    pub fn peek_bytes(&self, n: usize) -> (r: Option<Vec<u8>>)
        ensures
            opt_bytes(r) == if avail(self@.data(), self@.pos as int, n as int) {
                Some(self@.data().subrange(self@.pos as int, self@.pos + n))
            } else {
                None
            },
            self@.wf(),
    {
        if self.remain() < n {
            return None;
        }
        let mut v: Vec<u8> = Vec::new();
        let mut i: usize = 0;
        while i < n
            invariant
                i <= n,
                self@.pos + n <= self@.data().len(),
                v@ == self@.data().subrange(self@.pos as int, self@.pos + i),
            decreases n - i,
        {
            v.push(self.byte_at(i));
            i = i + 1;
            assert(v@ =~= self@.data().subrange(self@.pos as int, self@.pos + i));
        }
        Some(v)
    }

    /// Copies `n > 0` bytes at the position, without a trailing NUL.
    fn text_here(&self, n: usize) -> (v: Vec<u8>)
        requires
            n > 0,
            self@.pos + n <= self@.data().len(),
        ensures
            v@ == str_text(self@.data(), self@.pos as int, n as int),
    {
        let keep: usize = if self.byte_at(n - 1) == 0 {
            n - 1
        } else {
            n
        };
        let mut v: Vec<u8> = Vec::new();
        let mut i: usize = 0;
        while i < keep
            invariant
                i <= keep <= n,
                self@.pos + n <= self@.data().len(),
                v@ == self@.data().subrange(self@.pos as int, self@.pos + i),
            decreases keep - i,
        {
            v.push(self.byte_at(i));
            i = i + 1;
            assert(v@ =~= self@.data().subrange(self@.pos as int, self@.pos + i));
        }
        v
    }

    /// Reads a string with a signed 32-bit length prefix. The prefix is
    /// consumed when it can be read; a length of zero, a negative one or one
    /// beyond the data left gives no string.
    pub fn extract_str_l32(&mut self) -> (r: Option<Vec<u8>>)
        ensures
            opt_bytes(r) == read_str_l32(old(self)@.data(), old(self)@.pos as int).text,
            final(self)@ == old(self)@.at(
                read_str_l32(old(self)@.data(), old(self)@.pos as int).next,
            ),
            final(self)@.wf(),
    {
        let n: i32 = match self.get_i32() {
            Some(n) => n,
            None => {
                return None;
            },
        };
        if n <= 0 {
            return None;
        }
        let len: usize = n as usize;
        if len > self.remain() {
            return None;
        }
        let text = self.text_here(len);
        self.step(len);
        Some(text)
    }

    /// Reads a string with an unsigned 16-bit length prefix. The prefix is
    /// consumed when it can be read; a length of zero or one beyond the data
    /// left gives no string.
    pub fn extract_str_l16(&mut self) -> (r: Option<Vec<u8>>)
        ensures
            opt_bytes(r) == read_str_l16(old(self)@.data(), old(self)@.pos as int).text,
            final(self)@ == old(self)@.at(
                read_str_l16(old(self)@.data(), old(self)@.pos as int).next,
            ),
            final(self)@.wf(),
    {
        let n: u16 = match self.get_u16() {
            Some(n) => n,
            None => {
                return None;
            },
        };
        if n == 0 {
            return None;
        }
        let len: usize = n as usize;
        if len > self.remain() {
            return None;
        }
        let text = self.text_here(len);
        self.step(len);
        Some(text)
    }
}

} // verus!
