//! Decoding: the `Unpack` trait, its implementations for the basic XDR
//! types, and the helper built on it.

use crate::endian::{
    get_i32, get_i64, get_u32, get_u64, get_u8, i32_from_bits, i64_from_bits, u32_from_be,
    u64_from_be,
};
use crate::error::{Error, ErrorKind};
use crate::padding::{pad_len, padding};
use vstd::prelude::*;
use vstd::utf8::{decode_utf8, encode_utf8, encode_utf8_decode_utf8, valid_utf8};

verus! {

/// Basic unpacking trait.
///
/// A type that implements `Unpack` can be read off the front of a byte
/// buffer that holds its XDR form (as `Pack` writes it). `parse` says what a
/// buffer decodes to; `unpack` does the decoding, moves the buffer past what
/// it read, and returns the value with the number of bytes consumed.
///
/// Values are described by their deep view, so that a decoded vector or
/// string is pinned down by its contents.
pub trait Unpack: Sized + DeepView {
    /// What the front of `bytes` decodes to: the value and the number of
    /// bytes that it takes up, or the class of the failure.
    spec fn parse(bytes: Seq<u8>) -> Result<(<Self as DeepView>::V, nat), ErrorKind>;

    /// Decodes one value from the front of `input`. On success `input` is
    /// left at the first byte after the value, trailing padding included.
    /// On failure nothing is said of how much was consumed.
    fn unpack(input: &mut &[u8]) -> (r: Result<(Self, usize), Error>)
        ensures
            match Self::parse(old(input)@) {
                Ok((value, n)) => r matches Ok((v, k)) && v.deep_view() == value && k == n
                    && n <= old(input)@.len() && final(input)@ == old(input)@.skip(n as int),
                Err(kind) => r matches Err(e) && e.kind() == kind,
            },
    ;
}

impl Unpack for u8 {
    open spec fn parse(bytes: Seq<u8>) -> Result<(u8, nat), ErrorKind> {
        if bytes.len() >= 1 {
            Ok((bytes[0], 1))
        } else {
            Err(ErrorKind::Io)
        }
    }

    fn unpack(input: &mut &[u8]) -> (r: Result<(u8, usize), Error>) {
        match get_u8(input) {
            Ok(v) => Ok((v, 1)),
            Err(e) => Err(Error::from(e)),
        }
    }
}

impl Unpack for u32 {
    open spec fn parse(bytes: Seq<u8>) -> Result<(u32, nat), ErrorKind> {
        if bytes.len() >= 4 {
            Ok((u32_from_be(bytes), 4))
        } else {
            Err(ErrorKind::Io)
        }
    }

    fn unpack(input: &mut &[u8]) -> (r: Result<(u32, usize), Error>) {
        match get_u32(input) {
            Ok(v) => Ok((v, 4)),
            Err(e) => Err(Error::from(e)),
        }
    }
}

impl Unpack for i32 {
    open spec fn parse(bytes: Seq<u8>) -> Result<(i32, nat), ErrorKind> {
        if bytes.len() >= 4 {
            Ok((i32_from_bits(u32_from_be(bytes)), 4))
        } else {
            Err(ErrorKind::Io)
        }
    }

    fn unpack(input: &mut &[u8]) -> (r: Result<(i32, usize), Error>) {
        match get_i32(input) {
            Ok(v) => Ok((v, 4)),
            Err(e) => Err(Error::from(e)),
        }
    }
}

impl Unpack for u64 {
    open spec fn parse(bytes: Seq<u8>) -> Result<(u64, nat), ErrorKind> {
        if bytes.len() >= 8 {
            Ok((u64_from_be(bytes), 8))
        } else {
            Err(ErrorKind::Io)
        }
    }

    fn unpack(input: &mut &[u8]) -> (r: Result<(u64, usize), Error>) {
        match get_u64(input) {
            Ok(v) => Ok((v, 8)),
            Err(e) => Err(Error::from(e)),
        }
    }
}

impl Unpack for i64 {
    open spec fn parse(bytes: Seq<u8>) -> Result<(i64, nat), ErrorKind> {
        if bytes.len() >= 8 {
            Ok((i64_from_bits(u64_from_be(bytes)), 8))
        } else {
            Err(ErrorKind::Io)
        }
    }

    fn unpack(input: &mut &[u8]) -> (r: Result<(i64, usize), Error>) {
        match get_i64(input) {
            Ok(v) => Ok((v, 8)),
            Err(e) => Err(Error::from(e)),
        }
    }
}

impl Unpack for bool {
    open spec fn parse(bytes: Seq<u8>) -> Result<(bool, nat), ErrorKind> {
        match u32::parse(bytes) {
            Err(kind) => Err(kind),
            Ok((v, n)) => if v == 0 {
                Ok((false, n))
            } else if v == 1 {
                Ok((true, n))
            } else {
                Err(ErrorKind::InvalidEnum)
            },
        }
    }

    fn unpack(input: &mut &[u8]) -> (r: Result<(bool, usize), Error>) {
        let (v, sz) = u32::unpack(input)?;
        match v {
            0 => Ok((false, sz)),
            1 => Ok((true, sz)),
            _ => Err(Error::InvalidEnum),
        }
    }
}

impl Unpack for () {
    open spec fn parse(bytes: Seq<u8>) -> Result<((), nat), ErrorKind> {
        Ok(((), 0))
    }

    fn unpack(_input: &mut &[u8]) -> (r: Result<((), usize), Error>) {
        Ok(((), 0))
    }
}

impl Unpack for usize {
    open spec fn parse(bytes: Seq<u8>) -> Result<(usize, nat), ErrorKind> {
        match u32::parse(bytes) {
            Err(kind) => Err(kind),
            Ok((v, n)) => Ok((v as usize, n)),
        }
    }

    fn unpack(input: &mut &[u8]) -> (r: Result<(usize, usize), Error>) {
        let (v, sz) = u32::unpack(input)?;
        Ok((v as usize, sz))
    }
}

/// What the front of `bytes` decodes to as `n` values in a row: the values
/// and the number of bytes that they take up together, or the failure of
/// the first value that fails.
pub open spec fn parse_items<T: Unpack>(bytes: Seq<u8>, n: nat) -> Result<
    (Seq<<T as DeepView>::V>, nat),
    ErrorKind,
>
    decreases n,
{
    if n == 0 {
        Ok((Seq::empty(), 0))
    } else {
        match parse_items::<T>(bytes, (n - 1) as nat) {
            Err(kind) => Err(kind),
            Ok((items, used)) => match T::parse(bytes.skip(used as int)) {
                Err(kind) => Err(kind),
                Ok((item, m)) => Ok((items.push(item), used + m)),
            },
        }
    }
}

/// What the front of `bytes` decodes to as a variable-length sequence: the
/// element count, that many values, and the bytes that pad the whole to a
/// whole word, which must be there and may hold anything.
pub open spec fn parse_seq<T: Unpack>(bytes: Seq<u8>) -> Result<
    (Seq<<T as DeepView>::V>, nat),
    ErrorKind,
> {
    match usize::parse(bytes) {
        Err(kind) => Err(kind),
        Ok((count, hsz)) => match parse_items::<T>(bytes.skip(hsz as int), count as nat) {
            Err(kind) => Err(kind),
            Ok((items, vsz)) => {
                let sz = hsz + vsz;
                if bytes.len() >= sz + pad_len(sz) {
                    Ok((items, sz + pad_len(sz)))
                } else {
                    Err(ErrorKind::Io)
                }
            },
        },
    }
}

/// Once a value fails to decode, so does every longer run of values, and in
/// the same way.
pub proof fn lemma_parse_items_fails<T: Unpack>(bytes: Seq<u8>, i: nat, n: nat)
    requires
        i <= n,
        parse_items::<T>(bytes, i) is Err,
    ensures
        parse_items::<T>(bytes, n) == parse_items::<T>(bytes, i),
    decreases n,
{
    if i < n {
        lemma_parse_items_fails::<T>(bytes, i, (n - 1) as nat);
    }
}

/// The length of a byte slice is a machine word.
proof fn lemma_len_fits(s: &[u8])
    ensures
        s@.len() <= usize::MAX,
{
    assert(s@.len() == s.len());
}

/// `String::from_utf8`: succeeds exactly where the bytes are valid UTF-8,
/// and then hands out the string that is made of these very bytes.
#[verifier::external_body]
fn string_from_utf8(bytes: Vec<u8>) -> (r: Result<String, std::string::FromUtf8Error>)
    ensures
        r is Ok <==> valid_utf8(bytes@),
        r matches Ok(s) ==> encode_utf8(s@) == bytes@,
{
    String::from_utf8(bytes)
}

impl<T: Unpack> Unpack for Vec<T> {
    open spec fn parse(bytes: Seq<u8>) -> Result<(Seq<<T as DeepView>::V>, nat), ErrorKind> {
        parse_seq::<T>(bytes)
    }

    fn unpack(input: &mut &[u8]) -> (r: Result<(Vec<T>, usize), Error>) {
        let ghost orig = input@;
        proof {
            lemma_len_fits(*input);
        }
        let (elems, hsz) = usize::unpack(input)?;
        let ghost body = input@;
        let mut sz: usize = hsz;
        let mut out: Vec<T> = Vec::new();
        let mut i: usize = 0;
        while i < elems
            invariant
                i <= elems,
                orig == old(input)@,
                usize::parse(orig) == Ok::<(usize, nat), ErrorKind>((elems, 4)),
                4 <= orig.len() <= usize::MAX,
                body == orig.skip(4),
                parse_items::<T>(body, i as nat) matches Ok((items, used))
                    && items == out.deep_view() && sz == 4 + used && used <= body.len()
                    && input@ == body.skip(used as int),
            decreases elems - i,
        {
            proof {
                if parse_items::<T>(body, (i + 1) as nat) is Err {
                    lemma_parse_items_fails::<T>(body, (i + 1) as nat, elems as nat);
                }
            }
            let ghost before = out.deep_view();
            let (e, esz) = T::unpack(input)?;
            out.push(e);
            assert(out.deep_view() == before.push(e.deep_view()));
            sz = sz + esz;
            i = i + 1;
        }
        let ghost vsz = (sz - 4) as nat;
        let pad: usize = padding(sz);
        let mut j: usize = 0;
        while j < pad
            invariant
                j <= pad < 4,
                pad == pad_len((4 + vsz) as nat),
                orig == old(input)@,
                usize::parse(orig) == Ok::<(usize, nat), ErrorKind>((elems, 4)),
                parse_items::<T>(orig.skip(4), elems as nat) == Ok::<
                    (Seq<<T as DeepView>::V>, nat),
                    ErrorKind,
                >((out.deep_view(), vsz)),
                sz == 4 + vsz + j,
                sz <= orig.len() <= usize::MAX,
                input@ == orig.skip(sz as int),
            decreases pad - j,
        {
            let (_, psz) = u8::unpack(input)?;
            sz = sz + psz;
            j = j + 1;
        }
        Ok((out, sz))
    }
}

impl Unpack for String {
    open spec fn parse(bytes: Seq<u8>) -> Result<(Seq<char>, nat), ErrorKind> {
        match parse_seq::<u8>(bytes) {
            Err(kind) => Err(kind),
            Ok((raw, n)) => if valid_utf8(raw) {
                Ok((decode_utf8(raw), n))
            } else {
                Err(ErrorKind::InvalidUtf8)
            },
        }
    }

    fn unpack(input: &mut &[u8]) -> (r: Result<(String, usize), Error>) {
        let (v, sz) = Vec::<u8>::unpack(input)?;
        assert(v.deep_view() == v@);
        match string_from_utf8(v) {
            Ok(s) => {
                proof {
                    encode_utf8_decode_utf8(s@);
                }
                Ok((s, sz))
            },
            Err(e) => Err(Error::from(e)),
        }
    }
}

impl<T: Unpack> Unpack for Option<T> {
    open spec fn parse(bytes: Seq<u8>) -> Result<(Option<<T as DeepView>::V>, nat), ErrorKind> {
        match bool::parse(bytes) {
            Err(kind) => Err(kind),
            Ok((have, n)) => if have {
                match T::parse(bytes.skip(n as int)) {
                    Err(kind) => Err(kind),
                    Ok((value, m)) => Ok((Some(value), n + m)),
                }
            } else {
                Ok((None, n))
            },
        }
    }

    fn unpack(input: &mut &[u8]) -> (r: Result<(Option<T>, usize), Error>) {
        proof {
            lemma_len_fits(*input);
        }
        let (have, mut sz) = bool::unpack(input)?;
        let ret: Option<T> = if have {
            let (v, osz) = T::unpack(input)?;
            sz = sz + osz;
            Some(v)
        } else {
            None
        };
        Ok((ret, sz))
    }
}

impl<T: Unpack> Unpack for Box<T> {
    open spec fn parse(bytes: Seq<u8>) -> Result<(<T as DeepView>::V, nat), ErrorKind> {
        T::parse(bytes)
    }

    fn unpack(input: &mut &[u8]) -> (r: Result<(Box<T>, usize), Error>) {
        let (b, sz) = T::unpack(input)?;
        Ok((Box::new(b), sz))
    }
}

/// Deserialization (unpacking) helper function.
///
/// Decodes one value of type `T` from the front of `input`, for callers that
/// have no use for the byte count. Which type is decoded is for the caller
/// to say, as a rule by the type that the result is bound to.
pub fn unpack<T: Unpack>(input: &mut &[u8]) -> (r: Result<T, Error>)
    ensures
        match T::parse(old(input)@) {
            Ok((value, n)) => r matches Ok(v) && v.deep_view() == value
                && final(input)@ == old(input)@.skip(n as int),
            Err(kind) => r matches Err(e) && e.kind() == kind,
        },
{
    let (v, _) = T::unpack(input)?;
    Ok(v)
}

} // verus!
