//! The binary form of the values that travel between nodes: integers of fixed
//! width in little-endian order, a length of eight bytes before every string
//! and every list, one byte before every optional value, four bytes that
//! number the variant of an enumeration, and nothing else.

use vstd::prelude::*;
use vstd::bytes::{
    spec_u16_from_le_bytes, spec_u16_to_le_bytes, spec_u32_from_le_bytes, spec_u32_to_le_bytes,
    spec_u64_from_le_bytes, spec_u64_to_le_bytes, u16_from_le_bytes, u16_to_le_bytes,
    u32_from_le_bytes, u32_to_le_bytes, u64_from_le_bytes, u64_to_le_bytes,
};
use vstd::slice::{slice_subrange, slice_to_vec};
use vstd::string::StringSliceAdditionalSpecFns;
use vstd::utf8::{decode_utf8, encode_utf8, valid_utf8};
use crate::text::string_from_utf8;

verus! {

/// A value with a binary form.
pub trait Wire: Sized + DeepView {
    /// Whether the value can be written: its lengths fit the format.
    /// Every value that a program holds can.
    spec fn fits(v: Self::V) -> bool;

    /// The bytes of a value.
    spec fn wire(v: Self::V) -> Seq<u8>;

    /// The value at the front of some bytes, and how many bytes it takes.
    spec fn parse(bytes: Seq<u8>) -> Option<(Self::V, nat)>;

    /// What was written is read back, whatever follows it.
    proof fn round_trip(v: Self::V, rest: Seq<u8>)
        requires
            Self::fits(v),
        ensures
            Self::parse(Self::wire(v) + rest) == Some((v, Self::wire(v).len())),
    ;

    /// What is read takes no more bytes than there are.
    proof fn parse_bound(bytes: Seq<u8>)
        ensures
            Self::parse(bytes) matches Some((_, n)) ==> n <= bytes.len(),
    ;

    /// Appends the bytes of this value to `out`.
    fn encode(&self, out: &mut Vec<u8>)
        ensures
            Self::fits(self.deep_view()),
            final(out)@ == old(out)@ + Self::wire(self.deep_view()),
    ;

    /// Reads a value from `data` at the position `at`. Returns the value and
    /// the position behind it, or nothing where the bytes are no value.
    fn decode(data: &[u8], at: usize) -> (r: Option<(Self, usize)>)
        requires
            at <= data@.len(),
        ensures
            match r {
                Some((v, next)) => at <= next <= data@.len() && Self::parse(data@.skip(at as int))
                    == Some((v.deep_view(), (next - at) as nat)),
                None => Self::parse(data@.skip(at as int)) is None,
            },
    ;
}

fn append_slice(out: &mut Vec<u8>, bytes: &[u8])
    ensures
        final(out)@ == old(out)@ + bytes@,
{
    let mut i: usize = 0;
    while i < bytes.len()
        invariant
            i <= bytes.len(),
            out@ == old(out)@ + bytes@.take(i as int),
        decreases bytes.len() - i,
    {
        out.push(bytes[i]);
        assert(bytes@.take(i + 1) =~= bytes@.take(i as int).push(bytes@[i as int]));
        i = i + 1;
    }
    assert(bytes@.take(bytes.len() as int) =~= bytes@);
}

impl Wire for u8 {
    open spec fn fits(v: u8) -> bool {
        true
    }

    open spec fn wire(v: u8) -> Seq<u8> {
        seq![v]
    }

    open spec fn parse(bytes: Seq<u8>) -> Option<(u8, nat)> {
        if bytes.len() >= 1 {
            Some((bytes[0], 1))
        } else {
            None
        }
    }

    proof fn round_trip(v: u8, rest: Seq<u8>) {
    }

    proof fn parse_bound(bytes: Seq<u8>) {
    }

    fn encode(&self, out: &mut Vec<u8>) {
        out.push(*self);
        assert(out@ =~= old(out)@ + seq![*self]);
    }

    fn decode(data: &[u8], at: usize) -> (r: Option<(u8, usize)>) {
        if at < data.len() {
            Some((data[at], at + 1))
        } else {
            None
        }
    }
}

impl Wire for bool {
    open spec fn fits(v: bool) -> bool {
        true
    }

    open spec fn wire(v: bool) -> Seq<u8> {
        seq![if v { 1u8 } else { 0u8 }]
    }

    open spec fn parse(bytes: Seq<u8>) -> Option<(bool, nat)> {
        if bytes.len() >= 1 && bytes[0] == 0 {
            Some((false, 1))
        } else if bytes.len() >= 1 && bytes[0] == 1 {
            Some((true, 1))
        } else {
            None
        }
    }

    proof fn round_trip(v: bool, rest: Seq<u8>) {
    }

    proof fn parse_bound(bytes: Seq<u8>) {
    }

    fn encode(&self, out: &mut Vec<u8>) {
        out.push(if *self { 1u8 } else { 0u8 });
        assert(out@ =~= old(out)@ + seq![if *self { 1u8 } else { 0u8 }]);
    }

    fn decode(data: &[u8], at: usize) -> (r: Option<(bool, usize)>) {
        if at < data.len() {
            if data[at] == 0 {
                Some((false, at + 1))
            } else if data[at] == 1 {
                Some((true, at + 1))
            } else {
                None
            }
        } else {
            None
        }
    }
}

impl Wire for u16 {
    open spec fn fits(v: u16) -> bool {
        true
    }

    open spec fn wire(v: u16) -> Seq<u8> {
        spec_u16_to_le_bytes(v)
    }

    open spec fn parse(bytes: Seq<u8>) -> Option<(u16, nat)> {
        if bytes.len() >= 2 {
            Some((spec_u16_from_le_bytes(bytes.subrange(0, 2)), 2))
        } else {
            None
        }
    }

    proof fn round_trip(v: u16, rest: Seq<u8>) {
        vstd::bytes::lemma_auto_spec_u16_to_from_le_bytes();
        assert((spec_u16_to_le_bytes(v) + rest).subrange(0, 2) =~= spec_u16_to_le_bytes(v));
    }

    proof fn parse_bound(bytes: Seq<u8>) {
    }

    fn encode(&self, out: &mut Vec<u8>) {
        let bytes = u16_to_le_bytes(*self);
        append_slice(out, bytes.as_slice());
    }

    fn decode(data: &[u8], at: usize) -> (r: Option<(u16, usize)>) {
        if data.len() - at >= 2 {
            let v = u16_from_le_bytes(slice_subrange(data, at, at + 2));
            assert(data@.skip(at as int).subrange(0, 2) =~= data@.subrange(at as int, at + 2));
            Some((v, at + 2))
        } else {
            None
        }
    }
}

impl Wire for u32 {
    open spec fn fits(v: u32) -> bool {
        true
    }

    open spec fn wire(v: u32) -> Seq<u8> {
        spec_u32_to_le_bytes(v)
    }

    open spec fn parse(bytes: Seq<u8>) -> Option<(u32, nat)> {
        if bytes.len() >= 4 {
            Some((spec_u32_from_le_bytes(bytes.subrange(0, 4)), 4))
        } else {
            None
        }
    }

    proof fn round_trip(v: u32, rest: Seq<u8>) {
        vstd::bytes::lemma_auto_spec_u32_to_from_le_bytes();
        assert((spec_u32_to_le_bytes(v) + rest).subrange(0, 4) =~= spec_u32_to_le_bytes(v));
    }

    proof fn parse_bound(bytes: Seq<u8>) {
    }

    fn encode(&self, out: &mut Vec<u8>) {
        let bytes = u32_to_le_bytes(*self);
        append_slice(out, bytes.as_slice());
    }

    fn decode(data: &[u8], at: usize) -> (r: Option<(u32, usize)>) {
        if data.len() - at >= 4 {
            let v = u32_from_le_bytes(slice_subrange(data, at, at + 4));
            assert(data@.skip(at as int).subrange(0, 4) =~= data@.subrange(at as int, at + 4));
            Some((v, at + 4))
        } else {
            None
        }
    }
}

impl Wire for u64 {
    open spec fn fits(v: u64) -> bool {
        true
    }

    open spec fn wire(v: u64) -> Seq<u8> {
        spec_u64_to_le_bytes(v)
    }

    open spec fn parse(bytes: Seq<u8>) -> Option<(u64, nat)> {
        if bytes.len() >= 8 {
            Some((spec_u64_from_le_bytes(bytes.subrange(0, 8)), 8))
        } else {
            None
        }
    }

    proof fn round_trip(v: u64, rest: Seq<u8>) {
        vstd::bytes::lemma_auto_spec_u64_to_from_le_bytes();
        assert((spec_u64_to_le_bytes(v) + rest).subrange(0, 8) =~= spec_u64_to_le_bytes(v));
    }

    proof fn parse_bound(bytes: Seq<u8>) {
    }

    fn encode(&self, out: &mut Vec<u8>) {
        let bytes = u64_to_le_bytes(*self);
        append_slice(out, bytes.as_slice());
    }

    fn decode(data: &[u8], at: usize) -> (r: Option<(u64, usize)>) {
        if data.len() - at >= 8 {
            let v = u64_from_le_bytes(slice_subrange(data, at, at + 8));
            assert(data@.skip(at as int).subrange(0, 8) =~= data@.subrange(at as int, at + 8));
            Some((v, at + 8))
        } else {
            None
        }
    }
}

/// The unsigned number with the bits of a signed one, in two's complement.
pub open spec fn twos_complement(v: i64) -> u64 {
    if v >= 0 {
        v as u64
    } else {
        (v + 0x1_0000_0000_0000_0000) as u64
    }
}

/// The signed number with the bits of an unsigned one, in two's complement.
pub open spec fn from_twos_complement(u: u64) -> i64 {
    if u < 0x8000_0000_0000_0000 {
        u as i64
    } else {
        (u - 0x1_0000_0000_0000_0000) as i64
    }
}

impl Wire for i64 {
    open spec fn fits(v: i64) -> bool {
        true
    }

    open spec fn wire(v: i64) -> Seq<u8> {
        spec_u64_to_le_bytes(twos_complement(v))
    }

    open spec fn parse(bytes: Seq<u8>) -> Option<(i64, nat)> {
        if bytes.len() >= 8 {
            Some((from_twos_complement(spec_u64_from_le_bytes(bytes.subrange(0, 8))), 8))
        } else {
            None
        }
    }

    proof fn round_trip(v: i64, rest: Seq<u8>) {
        vstd::bytes::lemma_auto_spec_u64_to_from_le_bytes();
        assert((spec_u64_to_le_bytes(twos_complement(v)) + rest).subrange(0, 8)
            =~= spec_u64_to_le_bytes(twos_complement(v)));
    }

    proof fn parse_bound(bytes: Seq<u8>) {
    }

    fn encode(&self, out: &mut Vec<u8>) {
        let v = *self;
        let u: u64 = if v >= 0 {
            v as u64
        } else {
            (v as i128 + 0x1_0000_0000_0000_0000i128) as u64
        };
        u.encode(out);
    }

    fn decode(data: &[u8], at: usize) -> (r: Option<(i64, usize)>) {
        match u64::decode(data, at) {
            Some((u, next)) => {
                let v: i64 = if u < 0x8000_0000_0000_0000u64 {
                    u as i64
                } else {
                    (u as i128 - 0x1_0000_0000_0000_0000i128) as i64
                };
                Some((v, next))
            },
            None => None,
        }
    }
}

impl Wire for usize {
    open spec fn fits(v: usize) -> bool {
        true
    }

    open spec fn wire(v: usize) -> Seq<u8> {
        spec_u64_to_le_bytes(v as u64)
    }

    open spec fn parse(bytes: Seq<u8>) -> Option<(usize, nat)> {
        if bytes.len() >= 8 && spec_u64_from_le_bytes(bytes.subrange(0, 8)) <= usize::MAX {
            Some((spec_u64_from_le_bytes(bytes.subrange(0, 8)) as usize, 8))
        } else {
            None
        }
    }

    proof fn round_trip(v: usize, rest: Seq<u8>) {
        vstd::bytes::lemma_auto_spec_u64_to_from_le_bytes();
        assert((spec_u64_to_le_bytes(v as u64) + rest).subrange(0, 8) =~= spec_u64_to_le_bytes(
            v as u64,
        ));
    }

    proof fn parse_bound(bytes: Seq<u8>) {
    }

    fn encode(&self, out: &mut Vec<u8>) {
        let u: u64 = *self as u64;
        u.encode(out);
    }

    fn decode(data: &[u8], at: usize) -> (r: Option<(usize, usize)>) {
        match u64::decode(data, at) {
            Some((u, next)) => {
                if u <= usize::MAX as u64 {
                    Some((u as usize, next))
                } else {
                    None
                }
            },
            None => None,
        }
    }
}

impl Wire for String {
    open spec fn fits(v: Seq<char>) -> bool {
        encode_utf8(v).len() <= u64::MAX
    }

    open spec fn wire(v: Seq<char>) -> Seq<u8> {
        spec_u64_to_le_bytes(encode_utf8(v).len() as u64) + encode_utf8(v)
    }

    open spec fn parse(bytes: Seq<u8>) -> Option<(Seq<char>, nat)> {
        if bytes.len() >= 8 {
            let n = spec_u64_from_le_bytes(bytes.subrange(0, 8)) as int;
            if 8 + n <= bytes.len() && valid_utf8(bytes.subrange(8, 8 + n)) {
                Some((decode_utf8(bytes.subrange(8, 8 + n)), (8 + n) as nat))
            } else {
                None
            }
        } else {
            None
        }
    }

    proof fn round_trip(v: Seq<char>, rest: Seq<u8>) {
        vstd::bytes::lemma_auto_spec_u64_to_from_le_bytes();
        vstd::utf8::encode_utf8_valid_utf8(v);
        vstd::utf8::encode_utf8_decode_utf8(v);
        let body = encode_utf8(v);
        let head = spec_u64_to_le_bytes(body.len() as u64);
        let all = head + body + rest;
        assert(all.subrange(0, 8) =~= head);
        assert(all.subrange(8, 8 + body.len() as int) =~= body);
    }

    proof fn parse_bound(bytes: Seq<u8>) {
    }

    fn encode(&self, out: &mut Vec<u8>) {
        let bytes = self.as_str().as_bytes();
        let n: u64 = bytes.len() as u64;
        n.encode(out);
        append_slice(out, bytes);
        assert(out@ =~= old(out)@ + Self::wire(self.deep_view()));
    }

    fn decode(data: &[u8], at: usize) -> (r: Option<(String, usize)>) {
        match u64::decode(data, at) {
            Some((n, body)) => {
                if n <= (data.len() - body) as u64 {
                    let n = n as usize;
                    let bytes = slice_to_vec(slice_subrange(data, body, body + n));
                    assert(data@.skip(at as int).subrange(8, 8 + n) =~= data@.subrange(
                        body as int,
                        body + n,
                    ));
                    match string_from_utf8(bytes) {
                        Some(text) => Some((text, body + n)),
                        None => None,
                    }
                } else {
                    None
                }
            },
            None => None,
        }
    }
}

impl<T: Wire> Wire for Option<T> {
    open spec fn fits(v: Option<T::V>) -> bool {
        match v {
            Some(x) => T::fits(x),
            None => true,
        }
    }

    open spec fn wire(v: Option<T::V>) -> Seq<u8> {
        match v {
            Some(x) => seq![1u8] + T::wire(x),
            None => seq![0u8],
        }
    }

    open spec fn parse(bytes: Seq<u8>) -> Option<(Option<T::V>, nat)> {
        if bytes.len() >= 1 && bytes[0] == 0 {
            Some((None, 1))
        } else if bytes.len() >= 1 && bytes[0] == 1 {
            match T::parse(bytes.skip(1)) {
                Some((x, n)) => Some((Some(x), n + 1)),
                None => None,
            }
        } else {
            None
        }
    }

    proof fn round_trip(v: Option<T::V>, rest: Seq<u8>) {
        match v {
            Some(x) => {
                T::round_trip(x, rest);
                assert((seq![1u8] + T::wire(x) + rest).skip(1) =~= T::wire(x) + rest);
            },
            None => {},
        }
    }

    proof fn parse_bound(bytes: Seq<u8>) {
        if bytes.len() >= 1 {
            T::parse_bound(bytes.skip(1));
        }
    }

    fn encode(&self, out: &mut Vec<u8>) {
        match self {
            Some(x) => {
                out.push(1u8);
                x.encode(out);
                assert(out@ =~= old(out)@ + (seq![1u8] + T::wire(x.deep_view())));
            },
            None => {
                out.push(0u8);
                assert(out@ =~= old(out)@ + seq![0u8]);
            },
        }
    }

    fn decode(data: &[u8], at: usize) -> (r: Option<(Option<T>, usize)>) {
        if at < data.len() {
            if data[at] == 0 {
                Some((None, at + 1))
            } else if data[at] == 1 {
                assert(data@.skip(at as int).skip(1) =~= data@.skip(at + 1));
                match T::decode(data, at + 1) {
                    Some((x, next)) => Some((Some(x), next)),
                    None => None,
                }
            } else {
                None
            }
        } else {
            None
        }
    }
}

impl<A: Wire, B: Wire> Wire for (A, B) {
    open spec fn fits(v: (A::V, B::V)) -> bool {
        A::fits(v.0) && B::fits(v.1)
    }

    open spec fn wire(v: (A::V, B::V)) -> Seq<u8> {
        A::wire(v.0) + B::wire(v.1)
    }

    open spec fn parse(bytes: Seq<u8>) -> Option<((A::V, B::V), nat)> {
        match A::parse(bytes) {
            Some((a, n)) => match B::parse(bytes.skip(n as int)) {
                Some((b, m)) => Some(((a, b), n + m)),
                None => None,
            },
            None => None,
        }
    }

    proof fn round_trip(v: (A::V, B::V), rest: Seq<u8>) {
        A::round_trip(v.0, B::wire(v.1) + rest);
        B::round_trip(v.1, rest);
        assert(A::wire(v.0) + B::wire(v.1) + rest =~= A::wire(v.0) + (B::wire(v.1) + rest));
        assert((A::wire(v.0) + (B::wire(v.1) + rest)).skip(A::wire(v.0).len() as int) =~= B::wire(
            v.1,
        ) + rest);
    }

    proof fn parse_bound(bytes: Seq<u8>) {
        A::parse_bound(bytes);
        if let Some((a, n)) = A::parse(bytes) {
            B::parse_bound(bytes.skip(n as int));
        }
    }

    fn encode(&self, out: &mut Vec<u8>) {
        self.0.encode(out);
        self.1.encode(out);
        assert(out@ =~= old(out)@ + (A::wire(self.0.deep_view()) + B::wire(self.1.deep_view())));
    }

    fn decode(data: &[u8], at: usize) -> (r: Option<((A, B), usize)>) {
        match A::decode(data, at) {
            Some((a, mid)) => {
                assert(data@.skip(at as int).skip(mid - at) =~= data@.skip(mid as int));
                match B::decode(data, mid) {
                    Some((b, next)) => Some(((a, b), next)),
                    None => None,
                }
            },
            None => None,
        }
    }
}

impl<A: Wire, B: Wire, C: Wire> Wire for (A, B, C) {
    open spec fn fits(v: (A::V, B::V, C::V)) -> bool {
        A::fits(v.0) && B::fits(v.1) && C::fits(v.2)
    }

    open spec fn wire(v: (A::V, B::V, C::V)) -> Seq<u8> {
        <(A, (B, C)) as Wire>::wire((v.0, (v.1, v.2)))
    }

    open spec fn parse(bytes: Seq<u8>) -> Option<((A::V, B::V, C::V), nat)> {
        match <(A, (B, C)) as Wire>::parse(bytes) {
            Some(((a, (b, c)), n)) => Some(((a, b, c), n)),
            None => None,
        }
    }

    proof fn round_trip(v: (A::V, B::V, C::V), rest: Seq<u8>) {
        <(A, (B, C)) as Wire>::round_trip((v.0, (v.1, v.2)), rest);
    }

    proof fn parse_bound(bytes: Seq<u8>) {
        <(A, (B, C)) as Wire>::parse_bound(bytes);
    }

    fn encode(&self, out: &mut Vec<u8>) {
        self.0.encode(out);
        self.1.encode(out);
        self.2.encode(out);
        assert(out@ =~= old(out)@ + Self::wire(self.deep_view()));
    }

    fn decode(data: &[u8], at: usize) -> (r: Option<((A, B, C), usize)>) {
        match <(A, (B, C)) as Wire>::decode(data, at) {
            Some(((a, (b, c)), next)) => Some(((a, b, c), next)),
            None => None,
        }
    }
}

/// The bytes of the items of a list, one after the other.
pub open spec fn wire_items<T: Wire>(items: Seq<T::V>) -> Seq<u8>
    decreases items.len(),
{
    if items.len() == 0 {
        Seq::empty()
    } else {
        T::wire(items[0]) + wire_items::<T>(items.drop_first())
    }
}

/// The `count` items at the front of some bytes, and how many bytes they take.
pub open spec fn parse_items<T: Wire>(bytes: Seq<u8>, count: nat) -> Option<(Seq<T::V>, nat)>
    decreases count,
{
    if count == 0 {
        Some((Seq::empty(), 0))
    } else {
        match T::parse(bytes) {
            Some((first, n)) => match parse_items::<T>(bytes.skip(n as int), (count - 1) as nat) {
                Some((others, m)) => Some((seq![first] + others, n + m)),
                None => None,
            },
            None => None,
        }
    }
}

/// Whether every item of a list can be written.
pub open spec fn all_fit<T: Wire>(items: Seq<T::V>) -> bool {
    forall|i: int| 0 <= i < items.len() ==> T::fits(#[trigger] items[i])
}

proof fn lemma_items_round_trip<T: Wire>(items: Seq<T::V>, rest: Seq<u8>)
    requires
        all_fit::<T>(items),
    ensures
        parse_items::<T>(wire_items::<T>(items) + rest, items.len()) == Some(
            (items, wire_items::<T>(items).len()),
        ),
    decreases items.len(),
{
    if items.len() != 0 {
        let first = items[0];
        let others = items.drop_first();
        assert(all_fit::<T>(others)) by {
            assert forall|i: int| 0 <= i < others.len() implies T::fits(#[trigger] others[i]) by {
                assert(others[i] == items[i + 1]);
            }
        }
        T::round_trip(first, wire_items::<T>(others) + rest);
        lemma_items_round_trip::<T>(others, rest);
        assert(wire_items::<T>(items) + rest =~= T::wire(first) + (wire_items::<T>(others) + rest));
        assert((T::wire(first) + (wire_items::<T>(others) + rest)).skip(T::wire(first).len() as int)
            =~= wire_items::<T>(others) + rest);
        assert(seq![first] + others =~= items);
    }
}

proof fn lemma_items_bound<T: Wire>(bytes: Seq<u8>, count: nat)
    ensures
        parse_items::<T>(bytes, count) matches Some((items, n)) ==> n <= bytes.len() && items.len()
            == count,
    decreases count,
{
    if count != 0 {
        T::parse_bound(bytes);
        if let Some((first, n)) = T::parse(bytes) {
            lemma_items_bound::<T>(bytes.skip(n as int), (count - 1) as nat);
        }
    }
}

proof fn lemma_wire_items_push<T: Wire>(items: Seq<T::V>, last: T::V)
    ensures
        wire_items::<T>(items.push(last)) == wire_items::<T>(items) + T::wire(last),
    decreases items.len(),
{
    if items.len() == 0 {
        assert(items.push(last).drop_first() =~= Seq::<T::V>::empty());
        assert(wire_items::<T>(items.push(last)) =~= T::wire(last) + wire_items::<T>(
            Seq::<T::V>::empty(),
        ));
    } else {
        assert(items.push(last).drop_first() =~= items.drop_first().push(last));
        lemma_wire_items_push::<T>(items.drop_first(), last);
        assert(wire_items::<T>(items.push(last)) =~= wire_items::<T>(items) + T::wire(last));
    }
}

impl<T: Wire> Wire for Vec<T> {
    open spec fn fits(v: Seq<T::V>) -> bool {
        v.len() <= u64::MAX && all_fit::<T>(v)
    }

    open spec fn wire(v: Seq<T::V>) -> Seq<u8> {
        spec_u64_to_le_bytes(v.len() as u64) + wire_items::<T>(v)
    }

    open spec fn parse(bytes: Seq<u8>) -> Option<(Seq<T::V>, nat)> {
        if bytes.len() >= 8 {
            match parse_items::<T>(
                bytes.skip(8),
                spec_u64_from_le_bytes(bytes.subrange(0, 8)) as nat,
            ) {
                Some((items, n)) => Some((items, n + 8)),
                None => None,
            }
        } else {
            None
        }
    }

    proof fn round_trip(v: Seq<T::V>, rest: Seq<u8>) {
        vstd::bytes::lemma_auto_spec_u64_to_from_le_bytes();
        let head = spec_u64_to_le_bytes(v.len() as u64);
        let all = head + wire_items::<T>(v) + rest;
        assert(all.subrange(0, 8) =~= head);
        assert(all.skip(8) =~= wire_items::<T>(v) + rest);
        lemma_items_round_trip::<T>(v, rest);
    }

    proof fn parse_bound(bytes: Seq<u8>) {
        if bytes.len() >= 8 {
            lemma_items_bound::<T>(
                bytes.skip(8),
                spec_u64_from_le_bytes(bytes.subrange(0, 8)) as nat,
            );
        }
    }

    fn encode(&self, out: &mut Vec<u8>) {
        let n: u64 = self.len() as u64;
        n.encode(out);
        let ghost head = out@;
        let mut i: usize = 0;
        assert(self.deep_view().take(0) =~= Seq::<T::V>::empty());
        assert(head + wire_items::<T>(Seq::<T::V>::empty()) =~= head);
        while i < self.len()
            invariant
                i <= self.len(),
                out@ == head + wire_items::<T>(self.deep_view().take(i as int)),
                forall|k: int| 0 <= k < i ==> T::fits(#[trigger] self.deep_view()[k]),
            decreases self.len() - i,
        {
            self[i].encode(out);
            proof {
                let done = self.deep_view().take(i as int);
                assert(self.deep_view().take(i + 1) =~= done.push(self.deep_view()[i as int]));
                lemma_wire_items_push::<T>(done, self.deep_view()[i as int]);
                assert(out@ =~= head + wire_items::<T>(self.deep_view().take(i + 1)));
            }
            i = i + 1;
        }
        assert(self.deep_view().take(self.len() as int) =~= self.deep_view());
        assert(out@ =~= old(out)@ + Self::wire(self.deep_view()));
    }

    fn decode(data: &[u8], at: usize) -> (r: Option<(Vec<T>, usize)>) {
        match u64::decode(data, at) {
            Some((count, start)) => {
                let mut items: Vec<T> = Vec::new();
                let mut pos = start;
                let mut i: u64 = 0;
                let ghost whole = data@.skip(start as int);
                assert(data@.skip(at as int).skip(8) =~= whole);
                assert(items.deep_view() =~= Seq::<T::V>::empty());
                while i < count
                    invariant
                        i <= count,
                        start <= pos <= data@.len(),
                        whole == data@.skip(start as int),
                        whole == data@.skip(at as int).skip(8),
                        data@.skip(at as int).len() >= 8,
                        count == spec_u64_from_le_bytes(data@.skip(at as int).subrange(0, 8)),
                        items@.len() == i,
                        parse_items::<T>(whole, count as nat) == (match parse_items::<T>(
                            data@.skip(pos as int),
                            (count - i) as nat,
                        ) {
                            Some((others, m)) => Some(
                                (items.deep_view() + others, (pos - start + m) as nat),
                            ),
                            None => None,
                        }),
                    decreases count - i,
                {
                    let ghost done = items.deep_view();
                    match T::decode(data, pos) {
                        Some((item, next)) => {
                            proof {
                                assert(data@.skip(pos as int).skip(next - pos) =~= data@.skip(
                                    next as int,
                                ));
                                if let Some((others, m)) = parse_items::<T>(
                                    data@.skip(next as int),
                                    (count - i - 1) as nat,
                                ) {
                                    assert(done + (seq![item.deep_view()] + others) =~= done.push(
                                        item.deep_view(),
                                    ) + others);
                                }
                            }
                            items.push(item);
                            assert(items.deep_view() =~= done.push(item.deep_view()));
                            pos = next;
                        },
                        None => {
                            assert(parse_items::<T>(data@.skip(pos as int), (count - i) as nat)
                                is None);
                            return None;
                        },
                    }
                    i = i + 1;
                }
                assert(items.deep_view() + Seq::<T::V>::empty() =~= items.deep_view());
                Some((items, pos))
            },
            None => None,
        }
    }
}

/// The bytes of a variant of an enumeration: its number, then its content.
#[verifier::opaque]
pub open spec fn tagged_wire<T: Wire>(index: u32, content: T::V) -> Seq<u8> {
    <u32 as Wire>::wire(index) + T::wire(content)
}

/// The content of a variant at the front of some bytes, behind the four bytes
/// of its number, and how many bytes number and content take.
#[verifier::opaque]
pub open spec fn tagged_parse<T: Wire>(bytes: Seq<u8>) -> Option<(T::V, nat)> {
    match T::parse(bytes.skip(4)) {
        Some((content, n)) => Some((content, n + 4)),
        None => None,
    }
}

/// The number of a variant is read back, whatever follows it.
pub proof fn lemma_tag_round_trip(index: u32, rest: Seq<u8>)
    ensures
        <u32 as Wire>::parse(<u32 as Wire>::wire(index) + rest) == Some((index, 4nat)),
        <u32 as Wire>::wire(index).len() == 4,
{
    vstd::bytes::lemma_auto_spec_u32_to_from_le_bytes();
    <u32 as Wire>::round_trip(index, rest);
}

/// A variant that was written is read back, whatever follows it.
pub proof fn lemma_tagged_round_trip<T: Wire>(index: u32, content: T::V, rest: Seq<u8>)
    requires
        T::fits(content),
    ensures
        <u32 as Wire>::parse(tagged_wire::<T>(index, content) + rest) == Some((index, 4nat)),
        tagged_parse::<T>(tagged_wire::<T>(index, content) + rest) == Some(
            (content, tagged_wire::<T>(index, content).len()),
        ),
{
    reveal(tagged_wire);
    reveal(tagged_parse);
    let tag = <u32 as Wire>::wire(index);
    let body = T::wire(content);
    lemma_tag_round_trip(index, body + rest);
    T::round_trip(content, rest);
    assert(tag + body + rest =~= tag + (body + rest));
    assert((tag + (body + rest)).skip(4) =~= body + rest);
}

/// The content of a variant takes no more bytes than there are.
pub proof fn lemma_tagged_bound<T: Wire>(bytes: Seq<u8>)
    requires
        bytes.len() >= 4,
    ensures
        tagged_parse::<T>(bytes) matches Some((_, n)) ==> n <= bytes.len(),
{
    reveal(tagged_parse);
    T::parse_bound(bytes.skip(4));
}

/// Reads the content of a variant whose number stands at `at`.
pub fn decode_tagged<T: Wire>(data: &[u8], at: usize, body: usize) -> (r: Option<(T, usize)>)
    requires
        body == at + 4,
        body <= data@.len(),
    ensures
        match r {
            Some((content, next)) => at <= next <= data@.len() && tagged_parse::<T>(
                data@.skip(at as int),
            ) == Some((content.deep_view(), (next - at) as nat)),
            None => tagged_parse::<T>(data@.skip(at as int)) is None,
        },
{
    reveal(tagged_parse);
    assert(data@.skip(at as int).skip(4) =~= data@.skip(body as int));
    T::decode(data, body)
}

/// Writes the number of a variant without content.
pub fn encode_tag(index: u32, out: &mut Vec<u8>)
    ensures
        final(out)@ == old(out)@ + <u32 as Wire>::wire(index),
{
    index.encode(out);
}

/// Writes a variant with one field.
pub fn encode_tagged1<A: Wire>(index: u32, a: &A, out: &mut Vec<u8>)
    ensures
        A::fits(a.deep_view()),
        final(out)@ == old(out)@ + tagged_wire::<A>(index, a.deep_view()),
{
    reveal(tagged_wire);
    index.encode(out);
    a.encode(out);
    assert(out@ =~= old(out)@ + tagged_wire::<A>(index, a.deep_view()));
}

/// Writes a variant with two fields.
pub fn encode_tagged2<A: Wire, B: Wire>(index: u32, a: &A, b: &B, out: &mut Vec<u8>)
    ensures
        <(A, B) as Wire>::fits((a.deep_view(), b.deep_view())),
        final(out)@ == old(out)@ + tagged_wire::<(A, B)>(index, (a.deep_view(), b.deep_view())),
{
    reveal(tagged_wire);
    index.encode(out);
    a.encode(out);
    b.encode(out);
    assert(out@ =~= old(out)@ + tagged_wire::<(A, B)>(index, (a.deep_view(), b.deep_view())));
}

/// Writes a variant with three fields.
pub fn encode_tagged3<A: Wire, B: Wire, C: Wire>(index: u32, a: &A, b: &B, c: &C, out: &mut Vec<u8>)
    ensures
        <(A, (B, C)) as Wire>::fits((a.deep_view(), (b.deep_view(), c.deep_view()))),
        final(out)@ == old(out)@ + tagged_wire::<(A, (B, C))>(
            index,
            (a.deep_view(), (b.deep_view(), c.deep_view())),
        ),
{
    reveal(tagged_wire);
    index.encode(out);
    a.encode(out);
    b.encode(out);
    c.encode(out);
    assert(out@ =~= old(out)@ + tagged_wire::<(A, (B, C))>(
        index,
        (a.deep_view(), (b.deep_view(), c.deep_view())),
    ));
}

/// Writes a variant with four fields.
pub fn encode_tagged4<A: Wire, B: Wire, C: Wire, D: Wire>(
    index: u32,
    a: &A,
    b: &B,
    c: &C,
    d: &D,
    out: &mut Vec<u8>,
)
    ensures
        <(A, (B, (C, D))) as Wire>::fits(
            (a.deep_view(), (b.deep_view(), (c.deep_view(), d.deep_view()))),
        ),
        final(out)@ == old(out)@ + tagged_wire::<(A, (B, (C, D)))>(
            index,
            (a.deep_view(), (b.deep_view(), (c.deep_view(), d.deep_view()))),
        ),
{
    reveal(tagged_wire);
    index.encode(out);
    a.encode(out);
    b.encode(out);
    c.encode(out);
    d.encode(out);
    assert(out@ =~= old(out)@ + tagged_wire::<(A, (B, (C, D)))>(
        index,
        (a.deep_view(), (b.deep_view(), (c.deep_view(), d.deep_view()))),
    ));
}

} // verus!
