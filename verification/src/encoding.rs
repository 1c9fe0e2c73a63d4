//! Canonical little-endian byte encoding helpers and a bounds-checked reader.
use vstd::prelude::*;
use vstd::bytes::*;
use vstd::slice::*;
use vstd::string::*;

verus! {

/// Appends every byte of `s` to `out`.
pub fn push_slice(out: &mut Vec<u8>, s: &[u8])
    ensures
        final(out)@ == old(out)@ + s@,
{
    let ghost start = out@;
    let mut i: usize = 0;
    while i < s.len()
        invariant
            i <= s.len(),
            out@ == start + s@.subrange(0, i as int),
        decreases s.len() - i,
    {
        out.push(s[i]);
        i += 1;
        assert(out@ =~= start + s@.subrange(0, i as int));
    }
    assert(s@.subrange(0, s.len() as int) =~= s@);
}

/// Appends the 32 bytes of a digest.
pub fn push_hash(out: &mut Vec<u8>, h: &[u8; 32])
    ensures
        final(out)@ == old(out)@ + h@,
{
    push_slice(out, h.as_slice());
}

/// Appends `x` as 8 little-endian bytes.
pub fn push_u64_le(out: &mut Vec<u8>, x: u64)
    ensures
        final(out)@ == old(out)@ + spec_u64_to_le_bytes(x),
{
    let mut b = u64_to_le_bytes(x);
    out.append(&mut b);
}

/// Appends `x` as 2 little-endian bytes.
pub fn push_u16_le(out: &mut Vec<u8>, x: u16)
    ensures
        final(out)@ == old(out)@ + spec_u16_to_le_bytes(x),
{
    let mut b = u16_to_le_bytes(x);
    out.append(&mut b);
}

/// Appends `x` as 4 little-endian bytes.
pub fn push_u32_le(out: &mut Vec<u8>, x: u32)
    ensures
        final(out)@ == old(out)@ + spec_u32_to_le_bytes(x),
{
    let mut b = u32_to_le_bytes(x);
    out.append(&mut b);
}

/// Appends one byte.
pub fn push_u8(out: &mut Vec<u8>, x: u8)
    ensures
        final(out)@ == old(out)@ + seq![x],
{
    out.push(x);
    assert(out@ =~= old(out)@ + seq![x]);
}

/// Bytes of `s` preceded by its length as 8 little-endian bytes.
pub open spec fn len_prefixed(s: Seq<u8>) -> Seq<u8> {
    spec_u64_to_le_bytes(s.len() as u64) + s
}

/// Appends `s` preceded by its length as 8 little-endian bytes.
pub fn push_len_prefixed(out: &mut Vec<u8>, s: &[u8])
    ensures
        final(out)@ == old(out)@ + len_prefixed(s@),
{
    push_u64_le(out, s.len() as u64);
    push_slice(out, s);
    assert(out@ =~= old(out)@ + len_prefixed(s@));
}

/// The optional digest encoding: `0` for none, `1` then the 32 bytes for some.
pub open spec fn optional_hash_bytes(h: Option<[u8; 32]>) -> Seq<u8> {
    match h {
        Some(d) => seq![1u8] + d@,
        None => seq![0u8],
    }
}

/// Appends the optional digest encoding.
pub fn push_optional_hash(out: &mut Vec<u8>, h: Option<[u8; 32]>)
    ensures
        final(out)@ == old(out)@ + optional_hash_bytes(h),
{
    match h {
        Some(d) => {
            push_u8(out, 1);
            push_hash(out, &d);
            assert(out@ =~= old(out)@ + optional_hash_bytes(h));
        },
        None => {
            push_u8(out, 0);
        },
    }
}

/// Appends the UTF-8 bytes of `s`, length-prefixed.
pub fn push_str_len_prefixed(out: &mut Vec<u8>, s: &str)
    ensures
        final(out)@ == old(out)@ + len_prefixed(s.spec_bytes()),
{
    push_len_prefixed(out, s.as_bytes());
}

/// Order-preserving self-delimiting byte encoding: each zero byte becomes
/// `0, 1`, every other byte stands for itself.
pub open spec fn escaped_body(s: Seq<u8>) -> Seq<u8>
    decreases s.len(),
{
    if s.len() == 0 {
        Seq::empty()
    } else {
        escaped_body(s.drop_last()) + (if s.last() == 0 {
            seq![0u8, 1u8]
        } else {
            seq![s.last()]
        })
    }
}

/// The escaped body followed by the terminator `0, 0`.
pub open spec fn escaped(s: Seq<u8>) -> Seq<u8> {
    escaped_body(s) + seq![0u8, 0u8]
}

/// Appends the escaped, terminated encoding of `s`.
pub fn push_escaped(out: &mut Vec<u8>, s: &[u8])
    ensures
        final(out)@ == old(out)@ + escaped(s@),
{
    let ghost start = out@;
    let mut i: usize = 0;
    while i < s.len()
        invariant
            i <= s@.len(),
            out@ == start + escaped_body(s@.subrange(0, i as int)),
        decreases s.len() - i,
    {
        proof {
            let t = s@.subrange(0, i + 1);
            assert(t.drop_last() =~= s@.subrange(0, i as int));
            assert(t.last() == s@[i as int]);
        }
        if s[i] == 0 {
            out.push(0);
            out.push(1);
        } else {
            out.push(s[i]);
        }
        proof {
            let t = s@.subrange(0, i + 1);
            assert(out@ =~= start + escaped_body(t));
        }
        i += 1;
    }
    assert(s@.subrange(0, s@.len() as int) =~= s@);
    out.push(0);
    out.push(0);
    assert(out@ =~= start + escaped(s@));
}

/// Forward reader over a byte slice.
pub struct ByteCursor<'a> {
    /// Bytes being read.
    pub bytes: &'a [u8],
    /// Offset of the next unread byte.
    pub pos: usize,
}

impl<'a> ByteCursor<'a> {
    /// A cursor at the start of `bytes`.
    pub fn new(bytes: &'a [u8]) -> (c: Self)
        ensures
            c.bytes@ == bytes@,
            c.pos == 0,
    {
        ByteCursor { bytes, pos: 0 }
    }

    /// Number of unread bytes.
    pub open spec fn remaining(&self) -> int {
        self.bytes@.len() - self.pos
    }

    /// Reads the next `n` bytes, or `None` (cursor unchanged) when fewer remain.
    pub fn read_exact(&mut self, n: usize) -> (r: Option<&'a [u8]>)
        requires
            old(self).pos <= old(self).bytes@.len(),
        ensures
            final(self).bytes@ == old(self).bytes@,
            final(self).pos <= final(self).bytes@.len(),
            old(self).pos + n <= old(self).bytes@.len() ==> {
                &&& r is Some
                &&& r->0@ == old(self).bytes@.subrange(old(self).pos as int, old(self).pos + n)
                &&& final(self).pos == old(self).pos + n
            },
            old(self).pos + n > old(self).bytes@.len() ==> r is None && final(self).pos == old(self).pos,
    {
        if n <= self.bytes.len() - self.pos {
            let end = self.pos + n;
            let s = slice_subrange(self.bytes, self.pos, end);
            self.pos = end;
            Some(s)
        } else {
            None
        }
    }

    /// Reads one byte.
    pub fn read_u8(&mut self) -> (r: Option<u8>)
        requires
            old(self).pos <= old(self).bytes@.len(),
        ensures
            final(self).bytes@ == old(self).bytes@,
            final(self).pos <= final(self).bytes@.len(),
            old(self).pos + 1 <= old(self).bytes@.len() ==> {
                &&& r == Some(old(self).bytes@[old(self).pos as int])
                &&& final(self).pos == old(self).pos + 1
            },
            old(self).pos + 1 > old(self).bytes@.len() ==> r is None && final(self).pos == old(self).pos,
    {
        if self.pos < self.bytes.len() {
            let b = self.bytes[self.pos];
            self.pos = self.pos + 1;
            Some(b)
        } else {
            None
        }
    }

    /// Reads a little-endian `u16`.
    pub fn read_u16(&mut self) -> (r: Option<u16>)
        requires
            old(self).pos <= old(self).bytes@.len(),
        ensures
            final(self).bytes@ == old(self).bytes@,
            final(self).pos <= final(self).bytes@.len(),
            old(self).pos + 2 <= old(self).bytes@.len() ==> {
                &&& r == Some(spec_u16_from_le_bytes(old(self).bytes@.subrange(old(self).pos as int, old(self).pos + 2)))
                &&& final(self).pos == old(self).pos + 2
            },
            old(self).pos + 2 > old(self).bytes@.len() ==> r is None && final(self).pos == old(self).pos,
    {
        match self.read_exact(2) {
            Some(s) => Some(u16_from_le_bytes(s)),
            None => None,
        }
    }

    /// Reads a little-endian `u32`.
    pub fn read_u32(&mut self) -> (r: Option<u32>)
        requires
            old(self).pos <= old(self).bytes@.len(),
        ensures
            final(self).bytes@ == old(self).bytes@,
            final(self).pos <= final(self).bytes@.len(),
            old(self).pos + 4 <= old(self).bytes@.len() ==> {
                &&& r == Some(spec_u32_from_le_bytes(old(self).bytes@.subrange(old(self).pos as int, old(self).pos + 4)))
                &&& final(self).pos == old(self).pos + 4
            },
            old(self).pos + 4 > old(self).bytes@.len() ==> r is None && final(self).pos == old(self).pos,
    {
        match self.read_exact(4) {
            Some(s) => Some(u32_from_le_bytes(s)),
            None => None,
        }
    }

    /// Reads a little-endian `u64`.
    pub fn read_u64(&mut self) -> (r: Option<u64>)
        requires
            old(self).pos <= old(self).bytes@.len(),
        ensures
            final(self).bytes@ == old(self).bytes@,
            final(self).pos <= final(self).bytes@.len(),
            old(self).pos + 8 <= old(self).bytes@.len() ==> {
                &&& r == Some(spec_u64_from_le_bytes(old(self).bytes@.subrange(old(self).pos as int, old(self).pos + 8)))
                &&& final(self).pos == old(self).pos + 8
            },
            old(self).pos + 8 > old(self).bytes@.len() ==> r is None && final(self).pos == old(self).pos,
    {
        match self.read_exact(8) {
            Some(s) => Some(u64_from_le_bytes(s)),
            None => None,
        }
    }

    /// Reads a 32-byte digest.
    pub fn read_hash(&mut self) -> (r: Option<[u8; 32]>)
        requires
            old(self).pos <= old(self).bytes@.len(),
        ensures
            final(self).bytes@ == old(self).bytes@,
            final(self).pos <= final(self).bytes@.len(),
            old(self).pos + 32 <= old(self).bytes@.len() ==> {
                &&& r is Some
                &&& r->0@ == old(self).bytes@.subrange(old(self).pos as int, old(self).pos + 32)
                &&& final(self).pos == old(self).pos + 32
            },
            old(self).pos + 32 > old(self).bytes@.len() ==> r is None && final(self).pos == old(self).pos,
    {
        match self.read_exact(32) {
            Some(s) => {
                let mut h = [0u8; 32];
                let mut i: usize = 0;
                while i < 32
                    invariant
                        i <= 32,
                        s@.len() == 32,
                        forall|j: int| 0 <= j < i ==> h[j] == s@[j],
                    decreases 32 - i,
                {
                    h[i] = s[i];
                    i += 1;
                }
                assert(h@ =~= s@);
                Some(h)
            },
            None => None,
        }
    }

    /// Reads a length-prefixed byte string; `None` when the length or the bytes run past the end.
    pub fn read_len_prefixed(&mut self) -> (r: Option<Vec<u8>>)
        requires
            old(self).pos <= old(self).bytes@.len(),
        ensures
            final(self).bytes@ == old(self).bytes@,
            final(self).pos <= final(self).bytes@.len(),
            ({
                let b = old(self).bytes@;
                let p = old(self).pos as int;
                if p + 8 <= b.len() && p + 8 + spec_u64_from_le_bytes(b.subrange(p, p + 8)) <= b.len() {
                    let n = spec_u64_from_le_bytes(b.subrange(p, p + 8)) as int;
                    &&& r is Some
                    &&& r->0@ == b.subrange(p + 8, p + 8 + n)
                    &&& final(self).pos == p + 8 + n
                } else {
                    r is None
                }
            }),
    {
        let n = match self.read_u64() {
            Some(n) => n,
            None => return None,
        };
        if n as u128 <= (self.bytes.len() - self.pos) as u128 {
            match self.read_exact(n as usize) {
                Some(s) => Some(slice_to_vec(s)),
                None => None,
            }
        } else {
            None
        }
    }

    /// `true` when every byte has been read.
    pub fn at_end(&self) -> (r: bool)
        ensures
            r == (self.pos == self.bytes@.len()),
    {
        self.pos == self.bytes.len()
    }
}

} // verus!
