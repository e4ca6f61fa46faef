use vstd::prelude::*;
use vstd::utf8::{decode_utf8, valid_utf8};

use crate::error::ZimError;

verus! {

/// The unsigned value of `b` read as a little-endian number.
pub open spec fn le_value(b: Seq<u8>) -> nat
    decreases b.len(),
{
    if b.len() == 0 {
        0
    } else {
        b[0] as nat + 256 * le_value(b.drop_first())
    }
}

/// `256` raised to the power `n`: one more than the largest value of `n` bytes.
pub open spec fn byte_bound(n: nat) -> nat
    decreases n,
{
    if n == 0 {
        1
    } else {
        256 * byte_bound((n - 1) as nat)
    }
}

/// The `width` bytes of `b` that start at `start`.
pub open spec fn bytes_at(b: Seq<u8>, start: int, width: int) -> Seq<u8> {
    b.subrange(start, start + width)
}

/// The little-endian value of the `width` bytes of `b` that start at `start`.
pub open spec fn le_at(b: Seq<u8>, start: int, width: int) -> nat {
    le_value(bytes_at(b, start, width))
}

/// The `i`-th element of a packed table of `width`-byte little-endian values
/// that begins at `start`.
pub open spec fn table_entry(b: Seq<u8>, start: int, width: int, i: int) -> nat {
    le_at(b, start + width * i, width)
}

proof fn lemma_le_value_bound(b: Seq<u8>)
    ensures
        le_value(b) < byte_bound(b.len()),
    decreases b.len(),
{
    if b.len() > 0 {
        lemma_le_value_bound(b.drop_first());
        let rest = le_value(b.drop_first());
        let k = byte_bound(b.drop_first().len());
        assert(b[0] as nat + 256 * rest < 256 * k) by (nonlinear_arith)
            requires
                rest < k,
                b[0] < 256,
        ;
    }
}

proof fn lemma_byte_bounds()
    ensures
        byte_bound(1) == 0x100,
        byte_bound(2) == 0x1_0000,
        byte_bound(4) == 0x1_0000_0000,
        byte_bound(8) == 0x1_0000_0000_0000_0000,
{
    reveal_with_fuel(byte_bound, 9);
}

/// A byte source with a read position, in the manner of a seekable file.
///
/// The position may lie anywhere, also past the end of the data; a read
/// there fails with `ShortRead`.
#[derive(Debug)]
pub struct ByteCursor {
    pub data: Vec<u8>,
    pub pos: u64,
}

impl ByteCursor {
    /// Whether `n` bytes are available from the current position.
    pub open spec fn has(&self, n: int) -> bool {
        self.pos + n <= self.data@.len()
    }

    /// A cursor at position zero of `data`.
    pub fn new(data: Vec<u8>) -> (r: ByteCursor)
        ensures
            r.data@ == data@,
            r.pos == 0,
    {
        ByteCursor { data, pos: 0 }
    }

    /// The current read position.
    pub fn position(&self) -> (r: u64)
        ensures
            r == self.pos,
    {
        self.pos
    }

    /// Moves the read position to the absolute offset `pos`.
    pub fn seek(&mut self, pos: u64)
        ensures
            final(self).data@ == old(self).data@,
            final(self).pos == pos,
    {
        self.pos = pos;
    }

    /// Reads exactly `n` bytes, or fails with `ShortRead` and leaves the
    /// position where it was.
    pub fn read_bytes(&mut self, n: u64) -> (r: Result<Vec<u8>, ZimError>)
        ensures
            final(self).data@ == old(self).data@,
            r is Ok <==> old(self).has(n as int),
            r is Err ==> r == Err::<Vec<u8>, ZimError>(ZimError::ShortRead) && final(self).pos
                == old(self).pos,
            r matches Ok(v) ==> v@ == bytes_at(old(self).data@, old(self).pos as int, n as int)
                && final(self).pos == old(self).pos + n,
    {
        let len = self.data.len();
        if self.pos > len as u64 || n > len as u64 - self.pos {
            return Err(ZimError::ShortRead);
        }
        let start = self.pos as usize;
        let end = start + n as usize;
        let mut out: Vec<u8> = Vec::with_capacity(n as usize);
        let mut i: usize = start;
        while i < end
            invariant
                start <= i <= end,
                end <= self.data@.len(),
                out@ == self.data@.subrange(start as int, i as int),
            decreases end - i,
        {
            out.push(self.data[i]);
            i = i + 1;
            assert(out@ =~= self.data@.subrange(start as int, i as int));
        }
        self.pos = end as u64;
        Ok(out)
    }

    /// Reads one byte.
    pub fn read_u8(&mut self) -> (r: Result<u8, ZimError>)
        ensures
            final(self).data@ == old(self).data@,
            r is Ok <==> old(self).has(1),
            r is Err ==> r == Err::<u8, ZimError>(ZimError::ShortRead) && final(self).pos
                == old(self).pos,
            r matches Ok(v) ==> v == old(self).data@[old(self).pos as int] && final(self).pos
                == old(self).pos + 1,
    {
        let len = self.data.len();
        if self.pos >= len as u64 {
            return Err(ZimError::ShortRead);
        }
        let v = self.data[self.pos as usize];
        self.pos = self.pos + 1;
        Ok(v)
    }

    /// Reads a little-endian unsigned number of `width` bytes.
    pub fn read_le(&mut self, width: u64) -> (r: Result<u64, ZimError>)
        requires
            1 <= width <= 8,
        ensures
            final(self).data@ == old(self).data@,
            r is Ok <==> old(self).has(width as int),
            r is Err ==> r == Err::<u64, ZimError>(ZimError::ShortRead) && final(self).pos
                == old(self).pos,
            r matches Ok(v) ==> v == le_at(old(self).data@, old(self).pos as int, width as int)
                && v < byte_bound(width as nat) && final(self).pos == old(self).pos + width,
            r matches Ok(v) ==> (width == 2 ==> v <= u16::MAX) && (width == 4 ==> v <= u32::MAX),
    {
        let len = self.data.len();
        if self.pos > len as u64 || width > len as u64 - self.pos {
            return Err(ZimError::ShortRead);
        }
        let v = decode_le(self.data.as_slice(), self.pos as usize, width as usize);
        self.pos = self.pos + width;
        Ok(v)
    }
}

/// The little-endian number held in the `width` bytes of `b` at `start`.
pub fn decode_le(b: &[u8], start: usize, width: usize) -> (r: u64)
    requires
        1 <= width <= 8,
        start + width <= b@.len(),
    ensures
        r == le_at(b@, start as int, width as int),
        r < byte_bound(width as nat),
        width == 2 ==> r <= u16::MAX,
        width == 4 ==> r <= u32::MAX,
{
    let ghost s = bytes_at(b@, start as int, width as int);
    let n = b.len();
    let mut v: u64 = 0;
    let mut i: usize = width;
    proof {
        lemma_byte_bounds();
        assert(s.subrange(width as int, width as int) =~= Seq::<u8>::empty());
    }
    while i > 0
        invariant
            i <= width <= 8,
            start + width <= b@.len(),
            start + width <= usize::MAX,
            s == bytes_at(b@, start as int, width as int),
            v == le_value(s.subrange(i as int, width as int)),
            byte_bound(8) == 0x1_0000_0000_0000_0000,
        decreases i,
    {
        i = i - 1;
        let byte = b[start + i];
        proof {
            let tail = s.subrange(i as int, width as int);
            assert(tail.drop_first() =~= s.subrange(i + 1, width as int));
            assert(tail[0] == byte);
            lemma_le_value_bound(tail);
            lemma_byte_bound_mono(tail.len(), 8);
        }
        v = v * 256 + byte as u64;
    }
    proof {
        assert(s.subrange(0, width as int) =~= s);
        lemma_le_value_bound(s);
    }
    v
}

/// Relies on `String::from_utf8`: it succeeds exactly on valid UTF-8, and
/// the string then holds the characters the bytes encode.
#[verifier::external_body]
pub(crate) fn utf8_to_string(bytes: Vec<u8>) -> (r: Option<String>)
    ensures
        r is Some <==> valid_utf8(bytes@),
        r matches Some(s) ==> s@ == decode_utf8(bytes@),
{
    String::from_utf8(bytes).ok()
}

proof fn lemma_byte_bound_mono(m: nat, n: nat)
    requires
        m <= n,
    ensures
        byte_bound(m) <= byte_bound(n),
    decreases n,
{
    if m < n {
        lemma_byte_bound_mono(m, (n - 1) as nat);
    }
}

} // verus!
