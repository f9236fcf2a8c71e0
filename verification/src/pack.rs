//! Encoding: the `Pack` trait, its implementations for the basic XDR types,
//! and the helpers built on it.

use crate::endian::{
    be_u32, be_u64, i32_bits, i64_bits, put_i32, put_i64, put_u32, put_u64, put_u8,
};
use crate::error::{Error, ErrorKind};
use crate::padding::{pad_len, padded, padding, zeros};
use vstd::prelude::*;
use vstd::utf8::encode_utf8;

verus! {

/// Basic packing trait.
///
/// A type that implements `Pack` can be appended to a byte buffer in its XDR
/// form. `wire` says what that form is; `pack` writes it and returns the
/// number of bytes that the encoding took.
///
/// Buffers filled by `Pack` can be consumed by `Unpack`.
pub trait Pack {
    /// The bytes that stand for the value on the wire, or the class of the
    /// failure where the value has none.
    spec fn wire(&self) -> Result<Seq<u8>, ErrorKind>;

    /// Appends the wire form of the value to `out` and returns its length.
    /// Where the value has no wire form the error is of the class that
    /// `wire` names, and what was written before the failure stays in `out`.
    fn pack(&self, out: &mut Vec<u8>) -> (r: Result<usize, Error>)
        ensures
            match self.wire() {
                Ok(bytes) => r matches Ok(n) && n == bytes.len()
                    && final(out)@ == old(out)@ + bytes,
                Err(kind) => r matches Err(e) && e.kind() == kind
                    && old(out)@.is_prefix_of(final(out)@),
            },
    ;
}

/// The wire forms of the items of `s`, one after the other; where an item
/// has none, the failure of the first such item.
pub open spec fn wire_all<T: Pack>(s: Seq<T>) -> Result<Seq<u8>, ErrorKind>
    decreases s.len(),
{
    if s.len() == 0 {
        Ok(Seq::empty())
    } else {
        match wire_all(s.drop_last()) {
            Err(kind) => Err(kind),
            Ok(front) => match s.last().wire() {
                Err(kind) => Err(kind),
                Ok(bytes) => Ok(front + bytes),
            },
        }
    }
}

/// The wire form of a fixed-size array: the items, then padding to a whole
/// word. The number of items is not written.
pub open spec fn array_wire<T: Pack>(s: Seq<T>) -> Result<Seq<u8>, ErrorKind> {
    match wire_all(s) {
        Err(kind) => Err(kind),
        Ok(body) => Ok(padded(body)),
    }
}

/// The element count as it is written: the low 32 bits of the length.
pub open spec fn wire_count(len: nat) -> u32 {
    (len % 0x1_0000_0000) as u32
}

/// The wire form of a variable-length sequence: the element count, the
/// items, then padding of the whole to a whole word.
pub open spec fn seq_wire<T: Pack>(s: Seq<T>) -> Result<Seq<u8>, ErrorKind> {
    match wire_all(s) {
        Err(kind) => Err(kind),
        Ok(body) => Ok(padded(be_u32(wire_count(s.len())) + body)),
    }
}

impl Pack for u8 {
    open spec fn wire(&self) -> Result<Seq<u8>, ErrorKind> {
        Ok(seq![*self])
    }

    fn pack(&self, out: &mut Vec<u8>) -> (r: Result<usize, Error>) {
        match put_u8(out, *self) {
            Ok(()) => Ok(1),
            Err(e) => Err(Error::from(e)),
        }
    }
}

impl Pack for u32 {
    open spec fn wire(&self) -> Result<Seq<u8>, ErrorKind> {
        Ok(be_u32(*self))
    }

    fn pack(&self, out: &mut Vec<u8>) -> (r: Result<usize, Error>) {
        match put_u32(out, *self) {
            Ok(()) => Ok(4),
            Err(e) => Err(Error::from(e)),
        }
    }
}

impl Pack for i32 {
    open spec fn wire(&self) -> Result<Seq<u8>, ErrorKind> {
        Ok(be_u32(i32_bits(*self)))
    }

    fn pack(&self, out: &mut Vec<u8>) -> (r: Result<usize, Error>) {
        match put_i32(out, *self) {
            Ok(()) => Ok(4),
            Err(e) => Err(Error::from(e)),
        }
    }
}

impl Pack for u64 {
    open spec fn wire(&self) -> Result<Seq<u8>, ErrorKind> {
        Ok(be_u64(*self))
    }

    fn pack(&self, out: &mut Vec<u8>) -> (r: Result<usize, Error>) {
        match put_u64(out, *self) {
            Ok(()) => Ok(8),
            Err(e) => Err(Error::from(e)),
        }
    }
}

impl Pack for i64 {
    open spec fn wire(&self) -> Result<Seq<u8>, ErrorKind> {
        Ok(be_u64(i64_bits(*self)))
    }

    fn pack(&self, out: &mut Vec<u8>) -> (r: Result<usize, Error>) {
        match put_i64(out, *self) {
            Ok(()) => Ok(8),
            Err(e) => Err(Error::from(e)),
        }
    }
}

impl Pack for bool {
    open spec fn wire(&self) -> Result<Seq<u8>, ErrorKind> {
        Ok(be_u32(if *self { 1 } else { 0 }))
    }

    fn pack(&self, out: &mut Vec<u8>) -> (r: Result<usize, Error>) {
        let flag: u32 = if *self { 1 } else { 0 };
        flag.pack(out)
    }
}

impl Pack for () {
    open spec fn wire(&self) -> Result<Seq<u8>, ErrorKind> {
        Ok(Seq::empty())
    }

    fn pack(&self, _out: &mut Vec<u8>) -> (r: Result<usize, Error>) {
        Ok(0)
    }
}

impl Pack for usize {
    open spec fn wire(&self) -> Result<Seq<u8>, ErrorKind> {
        Ok(be_u32(wire_count(*self as nat)))
    }

    fn pack(&self, out: &mut Vec<u8>) -> (r: Result<usize, Error>) {
        let len: usize = *self;
        assert(len as u32 == (len as u64) % 0x1_0000_0000) by (bit_vector);
        let low: u32 = #[verifier::truncate] (len as u32);
        low.pack(out)
    }
}

/// The wire forms of the first `i + 1` items are those of the first `i`
/// followed by that of item `i`, unless one of the two fails.
pub proof fn lemma_wire_all_next<T: Pack>(s: Seq<T>, i: int)
    requires
        0 <= i < s.len(),
    ensures
        wire_all(s.take(i + 1)) == match wire_all(s.take(i)) {
            Err(kind) => Err(kind),
            Ok(front) => match s[i].wire() {
                Err(kind) => Err(kind),
                Ok(bytes) => Ok(front + bytes),
            },
        },
{
    assert(s.take(i + 1).drop_last() == s.take(i));
    assert(s.take(i + 1).last() == s[i]);
}

/// A failure among the first `i` items is the failure of the whole sequence.
pub proof fn lemma_wire_all_fails<T: Pack>(s: Seq<T>, i: int)
    requires
        0 <= i <= s.len(),
        wire_all(s.take(i)) is Err,
    ensures
        wire_all(s) == wire_all(s.take(i)),
    decreases s.len() - i,
{
    if i < s.len() {
        lemma_wire_all_next(s, i);
        lemma_wire_all_fails(s, i + 1);
    } else {
        assert(s.take(i) == s);
    }
}

/// Whatever extends `a + more` extends `a`.
proof fn lemma_prefix_extends(a: Seq<u8>, more: Seq<u8>)
    ensures
        forall|c: Seq<u8>| (a + more).is_prefix_of(c) ==> a.is_prefix_of(c),
{
    assert forall|c: Seq<u8>| (a + more).is_prefix_of(c) implies a.is_prefix_of(c) by {
        assert forall|k: int| 0 <= k < a.len() implies a[k] == c[k] by {
            assert((a + more)[k] == c.subrange(0, (a + more).len() as int)[k]);
        }
        assert(a =~= c.subrange(0, a.len() as int));
    }
}

/// Packs the items of `val` one after the other, and stops at the first
/// that fails.
fn pack_items<T: Pack>(val: &[T], out: &mut Vec<u8>) -> (r: Result<usize, Error>)
    ensures
        match wire_all(val@) {
            Ok(bytes) => r matches Ok(n) && n == bytes.len()
                && final(out)@ == old(out)@ + bytes,
            Err(kind) => r matches Err(e) && e.kind() == kind
                && old(out)@.is_prefix_of(final(out)@),
        },
{
    let ghost start = out@;
    let mut sz: usize = 0;
    let mut i: usize = 0;
    while i < val.len()
        invariant
            i <= val@.len(),
            start == old(out)@,
            wire_all(val@.take(i as int)) matches Ok(body) && out@ == start + body
                && sz == body.len(),
        decreases val@.len() - i,
    {
        proof {
            let body = out@.skip(start.len() as int);
            assert(out@ == start + body);
            lemma_wire_all_next(val@, i as int);
            if val@[i as int].wire() is Err {
                lemma_wire_all_fails(val@, i + 1);
                lemma_prefix_extends(start, body);
            }
        }
        let n: usize = val[i].pack(out)?;
        assert(out@.len() == out.len());
        sz = sz + n;
        i = i + 1;
    }
    assert(val@.take(i as int) == val@);
    Ok(sz)
}

/// Appends the zero bytes that pad an encoding of `sz` bytes to a whole word.
fn pack_padding(sz: usize, out: &mut Vec<u8>) -> (r: Result<usize, Error>)
    ensures
        r == Ok::<usize, Error>(pad_len(sz as nat) as usize),
        final(out)@ == old(out)@ + zeros(pad_len(sz as nat)),
{
    let ghost start = out@;
    let pad: usize = padding(sz);
    let mut psz: usize = 0;
    let mut i: usize = 0;
    while i < pad
        invariant
            i <= pad < 4,
            psz == i,
            out@ == start + zeros(i as nat),
        decreases pad - i,
    {
        let n: usize = 0u8.pack(out)?;
        psz = psz + n;
        i = i + 1;
    }
    Ok(psz)
}

/// Serialization (packing) helper.
///
/// Appends the wire form of `val` to `out`, for callers that have no use for
/// the byte count.
pub fn pack<T: Pack>(val: &T, out: &mut Vec<u8>) -> (r: Result<(), Error>)
    ensures
        match val.wire() {
            Ok(bytes) => r is Ok && final(out)@ == old(out)@ + bytes,
            Err(kind) => r matches Err(e) && e.kind() == kind
                && old(out)@.is_prefix_of(final(out)@),
        },
{
    val.pack(out)?;
    Ok(())
}

/// Packs a fixed-size array.
///
/// As the size is fixed it is not written: the items go out one after the
/// other, then the padding that brings their total to a whole word. Returns
/// the number of bytes written.
pub fn pack_array<T: Pack>(val: &[T], out: &mut Vec<u8>) -> (r: Result<usize, Error>)
    ensures
        match array_wire(val@) {
            Ok(bytes) => r matches Ok(n) && n == bytes.len()
                && final(out)@ == old(out)@ + bytes && bytes.len() % 4 == 0,
            Err(kind) => r matches Err(e) && e.kind() == kind
                && old(out)@.is_prefix_of(final(out)@),
        },
{
    let vsz: usize = pack_items(val, out)?;
    let psz: usize = pack_padding(vsz, out)?;
    assert(out@.len() == out.len());
    Ok(vsz + psz)
}

impl<T: Pack> Pack for [T] {
    open spec fn wire(&self) -> Result<Seq<u8>, ErrorKind> {
        seq_wire(self@)
    }

    fn pack(&self, out: &mut Vec<u8>) -> (r: Result<usize, Error>)
        ensures
            r matches Ok(n) ==> n % 4 == 0,
    {
        let len: usize = self.len();
        let hsz: usize = len.pack(out)?;
        let vsz: usize = pack_items(self, out)?;
        assert(out@.len() == out.len());
        let sz: usize = hsz + vsz;
        let psz: usize = pack_padding(sz, out)?;
        assert(out@.len() == out.len());
        Ok(sz + psz)
    }
}

impl<T: Pack> Pack for Vec<T> {
    open spec fn wire(&self) -> Result<Seq<u8>, ErrorKind> {
        seq_wire(self@)
    }

    fn pack(&self, out: &mut Vec<u8>) -> (r: Result<usize, Error>)
        ensures
            r matches Ok(n) ==> n % 4 == 0,
    {
        self.as_slice().pack(out)
    }
}

impl Pack for str {
    open spec fn wire(&self) -> Result<Seq<u8>, ErrorKind> {
        seq_wire(encode_utf8(self@))
    }

    fn pack(&self, out: &mut Vec<u8>) -> (r: Result<usize, Error>)
        ensures
            r matches Ok(n) ==> n % 4 == 0,
    {
        self.as_bytes().pack(out)
    }
}

impl<T: Pack> Pack for Option<T> {
    open spec fn wire(&self) -> Result<Seq<u8>, ErrorKind> {
        match self {
            None => Ok(be_u32(0)),
            Some(v) => match v.wire() {
                Err(kind) => Err(kind),
                Ok(bytes) => Ok(be_u32(1) + bytes),
            },
        }
    }

    fn pack(&self, out: &mut Vec<u8>) -> (r: Result<usize, Error>) {
        match self {
            None => false.pack(out),
            Some(v) => {
                let dsz: usize = true.pack(out)?;
                let vsz: usize = v.pack(out)?;
                assert(out@.len() == out.len());
                Ok(dsz + vsz)
            },
        }
    }
}

impl<T: Pack> Pack for Box<T> {
    open spec fn wire(&self) -> Result<Seq<u8>, ErrorKind> {
        (**self).wire()
    }

    fn pack(&self, out: &mut Vec<u8>) -> (r: Result<usize, Error>) {
        let t: &T = &**self;
        t.pack(out)
    }
}

} // verus!
