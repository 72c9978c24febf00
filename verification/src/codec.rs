use vstd::prelude::*;

verus! {

/// The failure kinds of the wire codec.
#[derive(Clone, Copy, PartialEq, Eq, Structural, Debug)]
pub enum ReadError {
    /// The buffer ends before the next component does.
    NotEnoughBytes,
    /// A tag byte that no known variant uses.
    UnknownTag(u32),
}

/// Copies a byte vector.
pub fn clone_bytes(v: &Vec<u8>) -> (r: Vec<u8>)
    ensures
        r@ == v@,
{
    let mut r: Vec<u8> = Vec::new();
    let mut i: usize = 0;
    while i < v.len()
        invariant
            i <= v.len(),
            r@ == v@.subrange(0, i as int),
        decreases v.len() - i,
    {
        r.push(v[i]);
        i = i + 1;
    }
    proof {
        assert(r@ =~= v@);
    }
    r
}

/// Appends the bytes of `src` to `out`.
pub fn put_slice(out: &mut Vec<u8>, src: &Vec<u8>)
    ensures
        final(out)@ == old(out)@ + src@,
{
    let mut i: usize = 0;
    while i < src.len()
        invariant
            i <= src.len(),
            out@ == old(out)@ + src@.subrange(0, i as int),
        decreases src.len() - i,
    {
        out.push(src[i]);
        i = i + 1;
        proof {
            assert(out@ =~= old(out)@ + src@.subrange(0, i as int));
        }
    }
    proof {
        assert(out@ =~= old(out)@ + src@);
    }
}

/// The big-endian four-byte layout of a 32-bit word.
pub open spec fn spec_u32_be(x: u32) -> Seq<u8> {
    seq![
        (x >> 24) as u8,
        ((x >> 16) & 0xff) as u8,
        ((x >> 8) & 0xff) as u8,
        (x & 0xff) as u8,
    ]
}

/// The 32-bit word spelled by four big-endian bytes.
pub open spec fn spec_u32_from(b0: u8, b1: u8, b2: u8, b3: u8) -> u32 {
    ((b0 as u32) << 24) | ((b1 as u32) << 16) | ((b2 as u32) << 8) | (b3 as u32)
}

/// Reading back the four big-endian bytes of a word yields the word.
pub proof fn lemma_u32_be_round(x: u32)
    ensures
        spec_u32_from(
            (x >> 24) as u8,
            ((x >> 16) & 0xff) as u8,
            ((x >> 8) & 0xff) as u8,
            (x & 0xff) as u8,
        ) == x,
{
    assert((((x >> 24) as u8) as u32) << 24 | ((((x >> 16) & 0xff) as u8) as u32) << 16 | ((((
    x >> 8) & 0xff) as u8) as u32) << 8 | (((x & 0xff) as u8) as u32) == x) by (bit_vector);
}

/// Appends the big-endian bytes of `x` to `out`.
pub fn put_u32(out: &mut Vec<u8>, x: u32)
    ensures
        final(out)@ == old(out)@ + spec_u32_be(x),
{
    proof {
        assert(x >> 24 < 256 && (x >> 16) & 0xff < 256 && (x >> 8) & 0xff < 256 && x & 0xff
            < 256) by (bit_vector);
    }
    out.push((x >> 24) as u8);
    out.push(((x >> 16) & 0xff) as u8);
    out.push(((x >> 8) & 0xff) as u8);
    out.push((x & 0xff) as u8);
    proof {
        assert(out@ =~= old(out)@ + spec_u32_be(x));
    }
}

/// Whether two byte vectors hold the same bytes.
pub fn bytes_eq(a: &Vec<u8>, b: &Vec<u8>) -> (r: bool)
    ensures
        r == (a@ == b@),
{
    if a.len() != b.len() {
        return false;
    }
    let mut i: usize = 0;
    while i < a.len()
        invariant
            a@.len() == b@.len(),
            i <= a.len(),
            forall|j: int| 0 <= j < i ==> a@[j] == b@[j],
        decreases a.len() - i,
    {
        if a[i] != b[i] {
            return false;
        }
        i = i + 1;
    }
    proof {
        assert(a@ =~= b@);
    }
    true
}

/// A read cursor over a byte buffer handed over by the transport.
pub struct ReadBuf {
    pub bytes: Vec<u8>,
    pub pos: usize,
}

impl ReadBuf {
    /// The cursor never passes the end.
    pub open spec fn wf(self) -> bool {
        self.pos <= self.bytes@.len()
    }

    /// A cursor at the start of the buffer.
    pub fn new(bytes: Vec<u8>) -> (r: ReadBuf)
        ensures
            r.wf(),
            r.bytes@ == bytes@,
            r.pos == 0,
    {
        ReadBuf { bytes, pos: 0 }
    }

    /// Reads one byte.
    pub fn get_u8(&mut self) -> (r: Result<u8, ReadError>)
        requires
            old(self).wf(),
        ensures
            final(self).wf(),
            final(self).bytes@ == old(self).bytes@,
            match r {
                Ok(b) => old(self).pos < old(self).bytes@.len() && b == old(self).bytes@[old(
                    self,
                ).pos as int] && final(self).pos == old(self).pos + 1,
                Err(e) => e == ReadError::NotEnoughBytes && old(self).pos == old(
                    self,
                ).bytes@.len() && *final(self) == *old(self),
            },
    {
        if self.pos < self.bytes.len() {
            let b = self.bytes[self.pos];
            self.pos = self.pos + 1;
            Ok(b)
        } else {
            Err(ReadError::NotEnoughBytes)
        }
    }

    /// Reads a big-endian 32-bit word.
    pub fn get_u32(&mut self) -> (r: Result<u32, ReadError>)
        requires
            old(self).wf(),
        ensures
            final(self).wf(),
            final(self).bytes@ == old(self).bytes@,
            match r {
                Ok(x) => old(self).pos + 4 <= old(self).bytes@.len() && x == spec_u32_from(
                    old(self).bytes@[old(self).pos as int],
                    old(self).bytes@[old(self).pos + 1],
                    old(self).bytes@[old(self).pos + 2],
                    old(self).bytes@[old(self).pos + 3],
                ) && final(self).pos == old(self).pos + 4,
                Err(e) => e == ReadError::NotEnoughBytes && old(self).pos + 4 > old(
                    self,
                ).bytes@.len() && *final(self) == *old(self),
            },
    {
        if self.bytes.len() - self.pos >= 4 {
            let b0 = self.bytes[self.pos];
            let b1 = self.bytes[self.pos + 1];
            let b2 = self.bytes[self.pos + 2];
            let b3 = self.bytes[self.pos + 3];
            self.pos = self.pos + 4;
            Ok(((b0 as u32) << 24) | ((b1 as u32) << 16) | ((b2 as u32) << 8) | (b3 as u32))
        } else {
            Err(ReadError::NotEnoughBytes)
        }
    }

    /// Reads `n` raw bytes.
    pub fn get_bytes(&mut self, n: usize) -> (r: Result<Vec<u8>, ReadError>)
        requires
            old(self).wf(),
        ensures
            final(self).wf(),
            final(self).bytes@ == old(self).bytes@,
            match r {
                Ok(v) => old(self).pos + n <= old(self).bytes@.len() && v@ == old(
                    self,
                ).bytes@.subrange(old(self).pos as int, old(self).pos + n) && final(self).pos
                    == old(self).pos + n,
                Err(e) => e == ReadError::NotEnoughBytes && old(self).pos + n > old(
                    self,
                ).bytes@.len() && *final(self) == *old(self),
            },
    {
        if self.bytes.len() - self.pos >= n {
            let start = self.pos;
            let end = self.pos + n;
            let mut v: Vec<u8> = Vec::new();
            let mut j: usize = start;
            while j < end
                invariant
                    start <= j <= end,
                    end == start + n,
                    end <= self.bytes@.len(),
                    v@ == self.bytes@.subrange(start as int, j as int),
                decreases end - j,
            {
                v.push(self.bytes[j]);
                j = j + 1;
                proof {
                    assert(v@ =~= self.bytes@.subrange(start as int, j as int));
                }
            }
            self.pos = end;
            Ok(v)
        } else {
            Err(ReadError::NotEnoughBytes)
        }
    }

    /// Reads a length-prefixed byte string.
    pub fn get_sized(&mut self) -> (r: Result<Vec<u8>, ReadError>)
        requires
            old(self).wf(),
        ensures
            final(self).wf(),
            final(self).bytes@ == old(self).bytes@,
            match r {
                Ok(v) => dec_bytes(old(self).bytes@, old(self).pos as int) == Ok::<
                    (Seq<u8>, int),
                    ReadError,
                >((v@, final(self).pos as int)),
                Err(e) => dec_bytes(old(self).bytes@, old(self).pos as int) == Err::<
                    (Seq<u8>, int),
                    ReadError,
                >(e),
            },
    {
        let n = match self.get_u32() {
            Ok(n) => n,
            Err(e) => {
                return Err(e);
            },
        };
        match self.get_bytes(n as usize) {
            Ok(v) => Ok(v),
            Err(e) => Err(e),
        }
    }
}

/// The big-endian length prefix followed by the bytes themselves.
pub open spec fn enc_bytes(b: Seq<u8>) -> Seq<u8> {
    spec_u32_be(b.len() as u32) + b
}

/// Decodes a big-endian 32-bit word at position `i`.
pub open spec fn dec_u32(s: Seq<u8>, i: int) -> Result<(u32, int), ReadError> {
    if 0 <= i && i + 4 <= s.len() {
        Ok((spec_u32_from(s[i], s[i + 1], s[i + 2], s[i + 3]), i + 4))
    } else {
        Err(ReadError::NotEnoughBytes)
    }
}

/// Decodes a length-prefixed byte string at position `i`.
pub open spec fn dec_bytes(s: Seq<u8>, i: int) -> Result<(Seq<u8>, int), ReadError> {
    match dec_u32(s, i) {
        Ok((n, j)) => if j + n <= s.len() {
            Ok((s.subrange(j, j + n), j + n))
        } else {
            Err(ReadError::NotEnoughBytes)
        },
        Err(e) => Err(e),
    }
}

/// Appends the length-prefixed encoding of `src` to `out`.
pub fn put_sized(out: &mut Vec<u8>, src: &Vec<u8>)
    requires
        src@.len() <= u32::MAX,
    ensures
        final(out)@ == old(out)@ + enc_bytes(src@),
{
    put_u32(out, src.len() as u32);
    put_slice(out, src);
    proof {
        assert(out@ =~= old(out)@ + enc_bytes(src@));
    }
}

/// A slice of a prefix-equal buffer slices equally: what holds of a
/// part of the encoding holds of the same part of the buffer.
pub proof fn lemma_prefix_slice(s: Seq<u8>, i: int, e: Seq<u8>, off: int, part: Seq<u8>)
    requires
        0 <= i,
        i + e.len() <= s.len(),
        s.subrange(i, i + e.len() as int) == e,
        0 <= off,
        off + part.len() <= e.len(),
        e.subrange(off, off + part.len() as int) == part,
    ensures
        s.subrange(i + off, i + off + part.len() as int) == part,
{
    assert forall|j: int| 0 <= j < part.len() implies s[i + off + j] == part[j] by {
        assert(e.subrange(off, off + part.len() as int)[j] == e[off + j]);
        assert(s.subrange(i, i + e.len() as int)[off + j] == s[i + off + j]);
    }
    assert(s.subrange(i + off, i + off + part.len() as int) =~= part);
}

/// Reading back a length-prefixed encoding yields the encoded bytes
/// and stops exactly at their end.
pub proof fn lemma_dec_enc_bytes(b: Seq<u8>, s: Seq<u8>, i: int)
    requires
        b.len() <= u32::MAX,
        0 <= i,
        i + enc_bytes(b).len() <= s.len(),
        s.subrange(i, i + enc_bytes(b).len() as int) == enc_bytes(b),
    ensures
        dec_bytes(s, i) == Ok::<(Seq<u8>, int), ReadError>((b, i + 4 + b.len())),
{
    let e = enc_bytes(b);
    let n = b.len() as u32;
    assert(e.len() == 4 + b.len());
    assert forall|j: int| 0 <= j < e.len() implies s[i + j] == e[j] by {
        assert(s.subrange(i, i + e.len() as int)[j] == s[i + j]);
    }
    lemma_u32_be_round(n);
    assert(e[0] == spec_u32_be(n)[0] && e[1] == spec_u32_be(n)[1] && e[2] == spec_u32_be(n)[2]
        && e[3] == spec_u32_be(n)[3]);
    assert(spec_u32_from(s[i], s[i + 1], s[i + 2], s[i + 3]) == n);
    assert(dec_u32(s, i) == Ok::<(u32, int), ReadError>((n, i + 4)));
    assert forall|j: int| 0 <= j < b.len() implies s[i + 4 + j] == b[j] by {
        assert(e[4 + j] == b[j]);
    }
    assert(s.subrange(i + 4, i + 4 + n) =~= b);
}

} // verus!
