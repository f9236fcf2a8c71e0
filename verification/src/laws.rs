//! What holds of every encoding and decoding: whole words, zero padding,
//! and decoding as the inverse of encoding.

use crate::endian::{
    be_u32, i32_bits, i64_bits, lemma_i32_bits_inverse, lemma_i64_bits_inverse,
    lemma_u32_be_inverse, lemma_u64_be_inverse,
};
use crate::error::ErrorKind;
use crate::pack::{array_wire, seq_wire, wire_all, wire_count, Pack};
use crate::padding::{pad_len, padded, zeros};
use crate::unpack::{parse_items, parse_seq, Unpack};
use vstd::prelude::*;
use vstd::utf8::{encode_utf8, encode_utf8_decode_utf8, encode_utf8_valid_utf8};

verus! {

/// Whether `bytes` is `body` followed by zero bytes alone, fewer than four
/// of them, and has a length that is a multiple of four.
pub open spec fn is_zero_padded(bytes: Seq<u8>, body: Seq<u8>) -> bool {
    &&& body.len() <= bytes.len() < body.len() + 4
    &&& bytes.len() % 4 == 0
    &&& bytes.subrange(0, body.len() as int) == body
    &&& forall|i: int| body.len() <= i < bytes.len() ==> bytes[i] == 0
}

/// Padding adds zero bytes alone, fewer than four, up to the next multiple
/// of four, and none to a length that is one already.
pub proof fn lemma_padded(b: Seq<u8>)
    ensures
        is_zero_padded(padded(b), b),
        padded(b).len() == b.len() + pad_len(b.len()),
        b.len() % 4 == 0 ==> padded(b) == b,
{
    assert(padded(b).subrange(0, b.len() as int) =~= b);
    if b.len() % 4 == 0 {
        assert(padded(b) =~= b);
    }
}

/// Types of which every value is encoded in whole four-byte words.
///
/// The single byte is the one basic type that is not: it is meant to stand
/// inside a sequence or an array, which pads after its items.
pub trait WordAligned: Pack {
    /// The wire form of a value has a length that is a multiple of four.
    proof fn wire_is_aligned(&self)
        ensures
            self.wire() matches Ok(bytes) ==> bytes.len() % 4 == 0,
    ;
}

impl WordAligned for u32 {
    proof fn wire_is_aligned(&self) {
    }
}

impl WordAligned for i32 {
    proof fn wire_is_aligned(&self) {
    }
}

impl WordAligned for u64 {
    proof fn wire_is_aligned(&self) {
    }
}

impl WordAligned for i64 {
    proof fn wire_is_aligned(&self) {
    }
}

impl WordAligned for bool {
    proof fn wire_is_aligned(&self) {
    }
}

impl WordAligned for () {
    proof fn wire_is_aligned(&self) {
    }
}

impl WordAligned for usize {
    proof fn wire_is_aligned(&self) {
    }
}

impl<T: Pack> WordAligned for [T] {
    proof fn wire_is_aligned(&self) {
        lemma_seq_wire_shape(self@);
    }
}

impl<T: Pack> WordAligned for Vec<T> {
    proof fn wire_is_aligned(&self) {
        lemma_seq_wire_shape(self@);
    }
}

impl WordAligned for str {
    proof fn wire_is_aligned(&self) {
        lemma_seq_wire_shape(encode_utf8(self@));
    }
}

impl<T: WordAligned> WordAligned for Option<T> {
    proof fn wire_is_aligned(&self) {
        match self {
            Some(v) => {
                v.wire_is_aligned();
            },
            None => {},
        }
    }
}

impl<T: WordAligned> WordAligned for Box<T> {
    proof fn wire_is_aligned(&self) {
        (**self).wire_is_aligned();
    }
}

/// The wire form of a variable-length sequence is the count and the items,
/// padded with zero bytes to a whole word.
pub proof fn lemma_seq_wire_shape<T: Pack>(s: Seq<T>)
    ensures
        match wire_all(s) {
            Err(kind) => seq_wire(s) == Err::<Seq<u8>, ErrorKind>(kind),
            Ok(body) => seq_wire(s) matches Ok(bytes) && is_zero_padded(
                bytes,
                be_u32(wire_count(s.len())) + body,
            ),
        },
{
    match wire_all(s) {
        Err(kind) => {},
        Ok(body) => {
            lemma_padded(be_u32(wire_count(s.len())) + body);
        },
    }
}

/// The wire form of a fixed-size array is the items, padded with zero bytes
/// to a whole word.
pub proof fn lemma_array_wire_shape<T: Pack>(s: Seq<T>)
    ensures
        match wire_all(s) {
            Err(kind) => array_wire(s) == Err::<Seq<u8>, ErrorKind>(kind),
            Ok(body) => array_wire(s) matches Ok(bytes) && is_zero_padded(bytes, body),
        },
{
    match wire_all(s) {
        Err(kind) => {},
        Ok(body) => {
            lemma_padded(body);
        },
    }
}

/// The deep views of the items of `s`, in order.
pub open spec fn deep_items<T: DeepView>(s: Seq<T>) -> Seq<<T as DeepView>::V> {
    Seq::new(s.len(), |i: int| s[i].deep_view())
}

/// Types whose decoder undoes their encoder.
pub trait RoundTrip: Pack + Unpack {
    /// Whether the wire format has room for the value. It has for all but
    /// counts and lengths over 32 bits, of which it keeps the low 32 bits.
    spec fn fits(&self) -> bool;

    /// Decoding the bytes that encoding a value gives, whatever follows
    /// them, yields a value of the same deep view and consumes as many
    /// bytes as the encoding took.
    proof fn round_trip(&self, rest: Seq<u8>)
        requires
            self.fits(),
        ensures
            self.wire() matches Ok(bytes) ==> Self::parse(bytes + rest) == Ok::<
                (<Self as DeepView>::V, nat),
                ErrorKind,
            >((self.deep_view(), bytes.len())),
    ;
}

impl RoundTrip for u8 {
    open spec fn fits(&self) -> bool {
        true
    }

    proof fn round_trip(&self, rest: Seq<u8>) {
    }
}

impl RoundTrip for u32 {
    open spec fn fits(&self) -> bool {
        true
    }

    proof fn round_trip(&self, rest: Seq<u8>) {
        lemma_u32_be_inverse(*self, rest);
    }
}

impl RoundTrip for i32 {
    open spec fn fits(&self) -> bool {
        true
    }

    proof fn round_trip(&self, rest: Seq<u8>) {
        lemma_u32_be_inverse(i32_bits(*self), rest);
        lemma_i32_bits_inverse(*self);
    }
}

impl RoundTrip for u64 {
    open spec fn fits(&self) -> bool {
        true
    }

    proof fn round_trip(&self, rest: Seq<u8>) {
        lemma_u64_be_inverse(*self, rest);
    }
}

impl RoundTrip for i64 {
    open spec fn fits(&self) -> bool {
        true
    }

    proof fn round_trip(&self, rest: Seq<u8>) {
        lemma_u64_be_inverse(i64_bits(*self), rest);
        lemma_i64_bits_inverse(*self);
    }
}

impl RoundTrip for bool {
    open spec fn fits(&self) -> bool {
        true
    }

    proof fn round_trip(&self, rest: Seq<u8>) {
        lemma_u32_be_inverse(if *self { 1 } else { 0 }, rest);
    }
}

impl RoundTrip for () {
    open spec fn fits(&self) -> bool {
        true
    }

    proof fn round_trip(&self, rest: Seq<u8>) {
    }
}

impl RoundTrip for usize {
    open spec fn fits(&self) -> bool {
        *self <= u32::MAX
    }

    proof fn round_trip(&self, rest: Seq<u8>) {
        lemma_u32_be_inverse(*self as u32, rest);
    }
}

/// Decoding the wire forms of a run of items, whatever follows them, yields
/// the items and consumes exactly their bytes.
pub proof fn lemma_items_round_trip<T: RoundTrip>(s: Seq<T>, rest: Seq<u8>)
    requires
        forall|i: int| 0 <= i < s.len() ==> (#[trigger] s[i]).fits(),
    ensures
        wire_all(s) matches Ok(body) ==> parse_items::<T>(body + rest, s.len()) == Ok::<
            (Seq<<T as DeepView>::V>, nat),
            ErrorKind,
        >((deep_items(s), body.len())),
    decreases s.len(),
{
    if s.len() == 0 {
        assert(deep_items(s) =~= Seq::empty());
    } else if let Ok(body) = wire_all(s) {
        let front = wire_all(s.drop_last())->Ok_0;
        let last = s.last().wire()->Ok_0;
        assert(body == front + last);
        assert(body + rest == front + (last + rest));
        lemma_items_round_trip(s.drop_last(), last + rest);
        assert((body + rest).skip(front.len() as int) == last + rest);
        s.last().round_trip(rest);
        assert(deep_items(s) =~= deep_items(s.drop_last()).push(s.last().deep_view()));
    }
}

/// The wire form of a sequence of at most `u32::MAX` items is its length,
/// its items and its zero padding, one after the other.
pub proof fn lemma_seq_wire_parts<T: Pack>(s: Seq<T>)
    requires
        s.len() <= u32::MAX,
    ensures
        wire_all(s) matches Ok(body) ==> seq_wire(s) == Ok::<Seq<u8>, ErrorKind>(
            be_u32(s.len() as u32) + body + zeros(pad_len(4 + body.len())),
        ),
{
    assert(wire_count(s.len()) == s.len() as u32);
}

/// A variable-length sequence decodes from its count, its items and as many
/// bytes of any content as its padding takes, whatever follows them.
pub proof fn lemma_seq_decodes<T: RoundTrip>(s: Seq<T>, fill: Seq<u8>, rest: Seq<u8>)
    requires
        s.len() <= u32::MAX,
        forall|i: int| 0 <= i < s.len() ==> (#[trigger] s[i]).fits(),
        wire_all(s) matches Ok(body) && fill.len() == pad_len(4 + body.len()),
    ensures
        wire_all(s) matches Ok(body) && parse_seq::<T>(
            be_u32(s.len() as u32) + body + fill + rest,
        ) == Ok::<(Seq<<T as DeepView>::V>, nat), ErrorKind>(
            (deep_items(s), 4 + body.len() + fill.len()),
        ),
{
    let body = wire_all(s)->Ok_0;
    let head = be_u32(s.len() as u32);
    let all = head + body + fill + rest;
    assert(all == head + (body + fill + rest));
    lemma_u32_be_inverse(s.len() as u32, body + fill + rest);
    assert(all.skip(4) == body + (fill + rest));
    lemma_items_round_trip(s, fill + rest);
}

impl<T: RoundTrip> RoundTrip for Vec<T> {
    open spec fn fits(&self) -> bool {
        &&& self@.len() <= u32::MAX
        &&& forall|i: int| 0 <= i < self@.len() ==> (#[trigger] self@[i]).fits()
    }

    proof fn round_trip(&self, rest: Seq<u8>) {
        if let Ok(body) = wire_all(self@) {
            lemma_seq_wire_parts(self@);
            let fill = zeros(pad_len(4 + body.len()));
            lemma_seq_decodes(self@, fill, rest);
            assert(self.deep_view() =~= deep_items(self@));
        }
    }
}

impl<T: RoundTrip> RoundTrip for Option<T> {
    open spec fn fits(&self) -> bool {
        match self {
            Some(v) => v.fits(),
            None => true,
        }
    }

    proof fn round_trip(&self, rest: Seq<u8>) {
        match self {
            Some(v) => {
                if let Ok(bytes) = v.wire() {
                    lemma_u32_be_inverse(1, bytes + rest);
                    assert(be_u32(1) + bytes + rest == be_u32(1) + (bytes + rest));
                    assert((be_u32(1) + bytes + rest).skip(4) == bytes + rest);
                    v.round_trip(rest);
                }
            },
            None => {
                lemma_u32_be_inverse(0, rest);
            },
        }
    }
}

impl<T: RoundTrip> RoundTrip for Box<T> {
    open spec fn fits(&self) -> bool {
        (**self).fits()
    }

    proof fn round_trip(&self, rest: Seq<u8>) {
        (**self).round_trip(rest);
    }
}

/// Decoding as a string the bytes that encoding a string gives, whatever
/// follows them, yields the same text and consumes as many bytes as the
/// encoding took.
pub proof fn lemma_string_round_trip(text: &str, rest: Seq<u8>)
    requires
        encode_utf8(text@).len() <= u32::MAX,
    ensures
        text.wire() matches Ok(bytes) && String::parse(bytes + rest) == Ok::<
            (Seq<char>, nat),
            ErrorKind,
        >((text@, bytes.len())),
{
    let raw = encode_utf8(text@);
    lemma_bytes_wire(raw);
    lemma_seq_wire_parts(raw);
    let fill = zeros(pad_len(4 + raw.len()));
    lemma_seq_decodes::<u8>(raw, fill, rest);
    assert(deep_items(raw) =~= raw);
    encode_utf8_valid_utf8(text@);
    encode_utf8_decode_utf8(text@);
}

/// A run of single bytes goes on the wire as it is.
pub proof fn lemma_bytes_wire(s: Seq<u8>)
    ensures
        wire_all(s) == Ok::<Seq<u8>, ErrorKind>(s),
    decreases s.len(),
{
    if s.len() == 0 {
        assert(s =~= Seq::empty());
    } else {
        lemma_bytes_wire(s.drop_last());
        assert(s.drop_last() + seq![s.last()] =~= s);
    }
}

} // verus!
