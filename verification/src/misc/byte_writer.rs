//! Append-only little-endian byte sink whose fixed-width fields can be
//! overwritten once their final value is known.

use vstd::prelude::*;

verus! {

/// The `n` low-order bytes of the two's complement representation of `v`,
/// least significant byte first.
pub open spec fn le_bytes(v: int, n: nat) -> Seq<u8>
    decreases n,
{
    if n == 0 {
        Seq::empty()
    } else {
        seq![(v % 256) as u8] + le_bytes(v / 256, (n - 1) as nat)
    }
}

/// `s` with the bytes from position `at` on replaced by `field`.
pub open spec fn overwrite(s: Seq<u8>, at: int, field: Seq<u8>) -> Seq<u8> {
    s.subrange(0, at) + field + s.subrange(at + field.len(), s.len() as int)
}

/// `le_bytes(v, n)` has exactly `n` bytes.
pub proof fn lemma_le_bytes_len(v: int, n: nat)
    ensures
        le_bytes(v, n).len() == n,
    decreases n,
{
    if n > 0 {
        lemma_le_bytes_len(v / 256, (n - 1) as nat);
    }
}

/// Overwriting a field keeps the length and touches no byte outside the field.
pub proof fn lemma_overwrite(s: Seq<u8>, at: int, field: Seq<u8>)
    requires
        0 <= at,
        at + field.len() <= s.len(),
    ensures
        overwrite(s, at, field).len() == s.len(),
        forall|j: int|
            0 <= j < s.len() ==> #[trigger] overwrite(s, at, field)[j] == if at <= j < at
                + field.len() {
                field[j - at]
            } else {
                s[j]
            },
{
}

/// A growing sequence of bytes.
pub struct ByteWriter {
    data: Vec<u8>,
}

impl View for ByteWriter {
    type V = Seq<u8>;

    /// The bytes written so far, in order.
    closed spec fn view(&self) -> Seq<u8> {
        self.data@
    }
}

/// The low byte of `value` and what is left of it after that byte.
fn split_low_byte(value: i64) -> (r: (u8, i64))
    ensures
        r.0 as int == (value as int) % 256,
        r.1 as int == (value as int) / 256,
{
    let low = (value & 0xff) as u8;
    let rest = value >> 8;
    assert((value & 0xff) as u8 as int == (value as int) % 256) by (bit_vector);
    assert((value >> 8) as int == (value as int) / 256) by (bit_vector);
    (low, rest)
}

/// The `width` low-order bytes of `value`, least significant first.
fn encode_le(value: i64, width: usize) -> (bytes: Vec<u8>)
    ensures
        bytes@ == le_bytes(value as int, width as nat),
{
    let mut bytes: Vec<u8> = Vec::new();
    let mut rest: i64 = value;
    let mut i: usize = 0;
    while i < width
        invariant
            i <= width,
            bytes@ + le_bytes(rest as int, (width - i) as nat) == le_bytes(
                value as int,
                width as nat,
            ),
        decreases width - i,
    {
        let ghost before = bytes@;
        let (low, next) = split_low_byte(rest);
        bytes.push(low);
        proof {
            let tail = le_bytes(next as int, (width - i - 1) as nat);
            assert(le_bytes(rest as int, (width - i) as nat) == seq![low] + tail);
            assert(bytes@ + tail == before + (seq![low] + tail));
        }
        rest = next;
        i += 1;
    }
    assert(bytes@ + Seq::<u8>::empty() == bytes@);
    bytes
}

impl ByteWriter {
    /// A writer never holds more bytes than can be counted.
    pub proof fn lemma_len_bounded(&self)
        ensures
            self@.len() <= usize::MAX,
    {
        assert(self.data.len() == self.data@.len());
    }

    /// An empty writer.
    pub fn new() -> (w: Self)
        ensures
            w@ == Seq::<u8>::empty(),
    {
        ByteWriter { data: Vec::new() }
    }

    /// A writer that starts out holding a copy of `bytes`.
    pub fn from_bytes(bytes: &Vec<u8>) -> (w: Self)
        ensures
            w@ == bytes@,
    {
        let mut w = ByteWriter { data: Vec::new() };
        w.append(bytes);
        w
    }

    /// Appends `bytes` and returns the offset at which they start.
    fn append(&mut self, bytes: &Vec<u8>) -> (at: usize)
        ensures
            at == old(self)@.len(),
            final(self)@ == old(self)@ + bytes@,
    {
        let at = self.data.len();
        let mut i: usize = 0;
        while i < bytes.len()
            invariant
                i <= bytes.len(),
                self.data@ == old(self).data@ + bytes@.subrange(0, i as int),
            decreases bytes.len() - i,
        {
            self.data.push(bytes[i]);
            i += 1;
        }
        assert(bytes@.subrange(0, bytes.len() as int) == bytes@);
        at
    }

    /// Appends one signed byte and returns the offset at which it was written.
    pub fn write_i8(&mut self, value: i8) -> (at: usize)
        ensures
            at == old(self)@.len(),
            final(self)@ == old(self)@ + le_bytes(value as int, 1),
    {
        let bytes = encode_le(value as i64, 1);
        self.append(&bytes)
    }

    /// Appends one byte and returns the offset at which it was written.
    pub fn write_u8(&mut self, value: u8) -> (at: usize)
        ensures
            at == old(self)@.len(),
            final(self)@ == old(self)@.push(value),
    {
        let at = self.data.len();
        self.data.push(value);
        at
    }

    /// Appends the four bytes of `value`, least significant first, and returns
    /// the offset of the first.
    pub fn write_i32(&mut self, value: i32) -> (at: usize)
        ensures
            at == old(self)@.len(),
            final(self)@ == old(self)@ + le_bytes(value as int, 4),
    {
        let bytes = encode_le(value as i64, 4);
        self.append(&bytes)
    }

    /// Appends the eight bytes of `value`, least significant first, and
    /// returns the offset of the first.
    pub fn write_i64(&mut self, value: i64) -> (at: usize)
        ensures
            at == old(self)@.len(),
            final(self)@ == old(self)@ + le_bytes(value as int, 8),
    {
        let bytes = encode_le(value, 8);
        self.append(&bytes)
    }

    /// Replaces the bytes from `index` on by `field`.
    fn replace(&mut self, index: usize, field: &Vec<u8>)
        requires
            index + field@.len() <= old(self)@.len(),
        ensures
            final(self)@ == overwrite(old(self)@, index as int, field@),
    {
        let len = self.data.len();
        let mut i: usize = 0;
        while i < field.len()
            invariant
                i <= field.len(),
                index + field@.len() <= len,
                self.data@.len() == len,
                len == old(self).data@.len(),
                forall|j: int|
                    0 <= j < self.data@.len() ==> #[trigger] self.data@[j] == if index <= j
                        < index + i {
                        field@[j - index]
                    } else {
                        old(self).data@[j]
                    },
            decreases field.len() - i,
        {
            self.data.set(index + i, field[i]);
            i += 1;
        }
        proof {
            lemma_overwrite(old(self)@, index as int, field@);
            assert(self.data@ =~= overwrite(old(self)@, index as int, field@));
        }
    }

    /// Overwrites the four bytes at `index` with those of `value`.
    pub fn rewrite_i32(&mut self, index: usize, value: i32)
        requires
            index + 4 <= old(self)@.len(),
        ensures
            final(self)@ == overwrite(old(self)@, index as int, le_bytes(value as int, 4)),
    {
        let bytes = encode_le(value as i64, 4);
        proof {
            lemma_le_bytes_len(value as int, 4);
        }
        self.replace(index, &bytes);
    }

    /// Overwrites the eight bytes at `index` with those of `value`.
    pub fn rewrite_i64(&mut self, index: usize, value: i64)
        requires
            index + 8 <= old(self)@.len(),
        ensures
            final(self)@ == overwrite(old(self)@, index as int, le_bytes(value as int, 8)),
    {
        let bytes = encode_le(value, 8);
        proof {
            lemma_le_bytes_len(value as int, 8);
        }
        self.replace(index, &bytes);
    }

    /// The bytes written so far.
    pub fn bytes(&self) -> (b: &Vec<u8>)
        ensures
            b@ == self@,
    {
        &self.data
    }
}

} // verus!
