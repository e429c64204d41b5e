//! Little-endian primitives over a byte buffer with a read position.

use vstd::prelude::*;

verus! {

/// The value of a little-endian unsigned integer held in `b`.
pub open spec fn le_value(b: Seq<u8>) -> nat
    decreases b.len(),
{
    if b.len() == 0 {
        0
    } else {
        b[0] as nat + 256 * le_value(b.subrange(1, b.len() as int))
    }
}

/// `256` to the power `n`: one more than the largest value of `n` bytes.
pub open spec fn byte_range(n: nat) -> nat
    decreases n,
{
    if n == 0 {
        1
    } else {
        256 * byte_range((n - 1) as nat)
    }
}

/// A little-endian value fits in as many bytes as it was read from.
pub proof fn lemma_le_value_bound(b: Seq<u8>)
    ensures
        le_value(b) < byte_range(b.len()),
    decreases b.len(),
{
    if b.len() > 0 {
        let rest = b.subrange(1, b.len() as int);
        lemma_le_value_bound(rest);
        assert(rest.len() == b.len() - 1);
        assert(le_value(b) == b[0] as nat + 256 * le_value(rest));
        assert(b[0] as nat + 256 * le_value(rest) < 256 * byte_range(rest.len())) by (nonlinear_arith)
            requires
                b[0] < 256,
                le_value(rest) + 1 <= byte_range(rest.len()),
        ;
    }
}

/// Where a read ran past the end of the input: the offset of the field and
/// the number of bytes it needed.
#[derive(Debug, Clone, Copy, PartialEq, Eq)]
pub struct EndOfInput {
    pub offset: usize,
    pub wanted: usize,
}

/// A byte buffer with the position of the next read.
pub struct Reader<'a> {
    pub data: &'a [u8],
    pub pos: usize,
}

/// The `n` bytes at `p`, when `s` holds that many there.
pub open spec fn bytes_at(s: Seq<u8>, p: int, n: int) -> Seq<u8> {
    s.subrange(p, p + n)
}

/// Whether `s` holds `n` bytes from `p` on.
pub open spec fn fits(s: Seq<u8>, p: int, n: int) -> bool {
    p + n <= s.len()
}

/// The little-endian value of the `n` bytes at `p`.
pub open spec fn le_at(s: Seq<u8>, p: int, n: int) -> nat {
    le_value(bytes_at(s, p, n))
}

/// The value of the little-endian `n`-byte integer at `start`.
pub fn le_from(data: &[u8], start: usize, n: usize) -> (v: u128)
    requires
        n <= 16,
        start + n <= data@.len(),
    ensures
        v == le_at(data@, start as int, n as int),
        v < byte_range(n as nat),
{
    let ghost s = data@;
    let len = data.len();
    let mut v: u128 = 0;
    let mut i: usize = n;
    proof {
        assert(bytes_at(s, start + n, 0) =~= Seq::<u8>::empty());
    }
    while i > 0
        invariant
            i <= n <= 16,
            start + n <= s.len(),
            s == data@,
            len == s.len(),
            v == le_value(s.subrange(start + i, start + n)),
        decreases i,
    {
        let ghost rest = s.subrange(start + i, start + n);
        let ghost next = s.subrange(start + i - 1, start + n);
        proof {
            assert(next.subrange(1, next.len() as int) =~= rest);
            assert(le_value(next) == next[0] as nat + 256 * le_value(rest));
            lemma_le_value_bound(next);
            lemma_byte_range_mono(next.len(), 16);
            lemma_byte_range_16();
        }
        v = v * 256 + data[start + i - 1] as u128;
        i = i - 1;
    }
    proof {
        assert(s.subrange(start as int, start + n) == bytes_at(s, start as int, n as int));
        lemma_le_value_bound(bytes_at(s, start as int, n as int));
    }
    v
}

/// Sixteen bytes span the range of `u128`.
pub proof fn lemma_byte_range_16()
    ensures
        byte_range(16) == 0x1_0000_0000_0000_0000_0000_0000_0000_0000,
{
    reveal_with_fuel(byte_range, 17);
}

/// `byte_range` grows with the number of bytes.
pub proof fn lemma_byte_range_mono(a: nat, b: nat)
    requires
        a <= b,
    ensures
        byte_range(a) <= byte_range(b),
    decreases b,
{
    if a < b {
        lemma_byte_range_mono(a, (b - 1) as nat);
    }
}

/// What a read of `n` bytes at the reader's position leaves behind: the
/// reader moves past them when they are there and stays where it was when not.
pub open spec fn read_moves(before: Reader, after: Reader, n: int) -> bool {
    &&& after.data@ == before.data@
    &&& fits(before.data@, before.pos as int, n) ==> after.pos == before.pos + n
    &&& !fits(before.data@, before.pos as int, n) ==> after.pos == before.pos
}

/// What a read of `n` bytes at the reader's position gives back on failure.
pub open spec fn short_read(before: Reader, n: int) -> EndOfInput {
    EndOfInput { offset: before.pos, wanted: n as usize }
}

impl<'a> Reader<'a> {
    /// A reader at the start of `data`.
    pub fn new(data: &'a [u8]) -> (r: Reader<'a>)
        ensures
            r.data@ == data@,
            r.pos == 0,
    {
        Reader { data, pos: 0 }
    }

    /// Checks that `n` bytes remain; on success the reader moves past them
    /// and their offset is returned.
    pub fn advance(&mut self, n: usize) -> (r: Result<usize, EndOfInput>)
        ensures
            read_moves(*old(self), *final(self), n as int),
            fits(old(self).data@, old(self).pos as int, n as int) ==> r == Ok::<usize, EndOfInput>(
                old(self).pos,
            ),
            !fits(old(self).data@, old(self).pos as int, n as int) ==> r == Err::<usize, EndOfInput>(
                short_read(*old(self), n as int),
            ),
    {
        let len = self.data.len();
        if self.pos <= len && n <= len - self.pos {
            let start = self.pos;
            self.pos = self.pos + n;
            Ok(start)
        } else {
            Err(EndOfInput { offset: self.pos, wanted: n })
        }
    }
}

/// Reads one byte.
pub fn read_u8(reader: &mut Reader) -> (r: Result<u8, EndOfInput>)
    ensures
        read_moves(*old(reader), *final(reader), 1),
        fits(old(reader).data@, old(reader).pos as int, 1) ==> r == Ok::<u8, EndOfInput>(
            old(reader).data@[old(reader).pos as int],
        ),
        !fits(old(reader).data@, old(reader).pos as int, 1) ==> r == Err::<u8, EndOfInput>(
            short_read(*old(reader), 1),
        ),
{
    let start = reader.advance(1)?;
    Ok(reader.data[start])
}

/// Reads a little-endian `u16`.
pub fn read_u16(reader: &mut Reader) -> (r: Result<u16, EndOfInput>)
    ensures
        read_moves(*old(reader), *final(reader), 2),
        fits(old(reader).data@, old(reader).pos as int, 2) ==> r == Ok::<u16, EndOfInput>(
            le_at(old(reader).data@, old(reader).pos as int, 2) as u16,
        ),
        !fits(old(reader).data@, old(reader).pos as int, 2) ==> r == Err::<u16, EndOfInput>(
            short_read(*old(reader), 2),
        ),
{
    let start = reader.advance(2)?;
    let v = le_from(reader.data, start, 2);
    proof {
        reveal_with_fuel(byte_range, 3);
    }
    Ok(v as u16)
}

/// Reads a little-endian `u32`.
pub fn read_u32(reader: &mut Reader) -> (r: Result<u32, EndOfInput>)
    ensures
        read_moves(*old(reader), *final(reader), 4),
        fits(old(reader).data@, old(reader).pos as int, 4) ==> r == Ok::<u32, EndOfInput>(
            le_at(old(reader).data@, old(reader).pos as int, 4) as u32,
        ),
        !fits(old(reader).data@, old(reader).pos as int, 4) ==> r == Err::<u32, EndOfInput>(
            short_read(*old(reader), 4),
        ),
{
    let start = reader.advance(4)?;
    let v = le_from(reader.data, start, 4);
    proof {
        reveal_with_fuel(byte_range, 5);
    }
    Ok(v as u32)
}

/// Reads a little-endian `u128`.
pub fn read_u128(reader: &mut Reader) -> (r: Result<u128, EndOfInput>)
    ensures
        read_moves(*old(reader), *final(reader), 16),
        fits(old(reader).data@, old(reader).pos as int, 16) ==> r == Ok::<u128, EndOfInput>(
            le_at(old(reader).data@, old(reader).pos as int, 16) as u128,
        ),
        !fits(old(reader).data@, old(reader).pos as int, 16) ==> r == Err::<u128, EndOfInput>(
            short_read(*old(reader), 16),
        ),
{
    let start = reader.advance(16)?;
    let v = le_from(reader.data, start, 16);
    Ok(v)
}

/// Reads the bit pattern of a little-endian IEEE 754 `f32`; the caller
/// turns it into a float (`f32::from_bits`).
pub fn read_f32(reader: &mut Reader) -> (r: Result<u32, EndOfInput>)
    ensures
        read_moves(*old(reader), *final(reader), 4),
        fits(old(reader).data@, old(reader).pos as int, 4) ==> r == Ok::<u32, EndOfInput>(
            le_at(old(reader).data@, old(reader).pos as int, 4) as u32,
        ),
        !fits(old(reader).data@, old(reader).pos as int, 4) ==> r == Err::<u32, EndOfInput>(
            short_read(*old(reader), 4),
        ),
{
    read_u32(reader)
}

/// Reads `n` bytes verbatim.
pub fn read_bytes(reader: &mut Reader, n: usize) -> (r: Result<Vec<u8>, EndOfInput>)
    ensures
        read_moves(*old(reader), *final(reader), n as int),
        fits(old(reader).data@, old(reader).pos as int, n as int) ==> r is Ok && r->Ok_0@
            == bytes_at(old(reader).data@, old(reader).pos as int, n as int),
        !fits(old(reader).data@, old(reader).pos as int, n as int) ==> r == Err::<Vec<u8>, EndOfInput>(
            short_read(*old(reader), n as int),
        ),
{
    let start = reader.advance(n)?;
    let len = reader.data.len();
    let mut out: Vec<u8> = Vec::new();
    let mut i: usize = 0;
    while i < n
        invariant
            i <= n,
            start + n <= reader.data@.len(),
            len == reader.data@.len(),
            out@ == reader.data@.subrange(start as int, start + i),
        decreases n - i,
    {
        out.push(reader.data[start + i]);
        i = i + 1;
        proof {
            assert(out@ =~= reader.data@.subrange(start as int, start + i));
        }
    }
    Ok(out)
}

} // verus!
