//! The byte layout of the values on the link.
//!
//! An enum is one byte holding the index of its variant, followed by the
//! variant's fields in declaration order; an integer is written least
//! significant byte first.  Nothing is padded and no length is stored, so
//! the encodings of one type are prefix-free: a reader always knows where
//! a value ends.

use crate::protocol::{Ack, BlinkerOptions, Command, DateTime};
use vstd::bytes::{
    lemma_auto_spec_u32_to_from_le_bytes, lemma_auto_spec_u64_to_from_le_bytes,
    spec_u32_from_le_bytes, spec_u32_to_le_bytes, spec_u64_from_le_bytes, spec_u64_to_le_bytes,
};
use vstd::prelude::*;
use vstd::slice::slice_subrange;

verus! {

/// `ssmarshal::Error`, the serializer's error; nothing is read from it.
#[verifier::external_type_specification]
#[verifier::external_body]
pub struct ExMarshalError(ssmarshal::Error);

/// `ssmarshal::serialize` for a `u64`: with room for eight bytes it cannot
/// fail, fills the first eight bytes of `buf` with the value, least
/// significant byte first, leaves the rest alone and reports eight bytes
/// used.
#[verifier::external_body]
fn marshal_u64(buf: &mut Vec<u8>, v: u64) -> (r: Result<usize, ssmarshal::Error>)
    requires
        old(buf).len() >= 8,
    ensures
        r is Ok,
        r->Ok_0 == 8,
        final(buf)@.len() == old(buf)@.len(),
        final(buf)@.take(8) == spec_u64_to_le_bytes(v),
        final(buf)@.skip(8) == old(buf)@.skip(8),
{
    ssmarshal::serialize(buf.as_mut_slice(), &v)
}

/// `ssmarshal::deserialize` for a `u64`: given at least eight bytes it
/// cannot fail, reads the value from the first eight, least significant
/// byte first, and reports eight bytes used.
#[verifier::external_body]
fn unmarshal_u64(buf: &[u8]) -> (r: Result<(u64, usize), ssmarshal::Error>)
    requires
        buf.len() >= 8,
    ensures
        r is Ok,
        r->Ok_0.0 == spec_u64_from_le_bytes(buf@.take(8)),
        r->Ok_0.1 == 8,
{
    ssmarshal::deserialize::<u64>(buf)
}

/// `ssmarshal::serialize` for a `u32`: as for a `u64`, with four bytes.
#[verifier::external_body]
fn marshal_u32(buf: &mut Vec<u8>, v: u32) -> (r: Result<usize, ssmarshal::Error>)
    requires
        old(buf).len() >= 4,
    ensures
        r is Ok,
        r->Ok_0 == 4,
        final(buf)@.len() == old(buf)@.len(),
        final(buf)@.take(4) == spec_u32_to_le_bytes(v),
        final(buf)@.skip(4) == old(buf)@.skip(4),
{
    ssmarshal::serialize(buf.as_mut_slice(), &v)
}

/// `ssmarshal::deserialize` for a `u32`: as for a `u64`, with four bytes.
#[verifier::external_body]
fn unmarshal_u32(buf: &[u8]) -> (r: Result<(u32, usize), ssmarshal::Error>)
    requires
        buf.len() >= 4,
    ensures
        r is Ok,
        r->Ok_0.0 == spec_u32_from_le_bytes(buf@.take(4)),
        r->Ok_0.1 == 4,
{
    ssmarshal::deserialize::<u32>(buf)
}

/// The bytes of a 64-bit integer on the wire.
pub open spec fn u64_wire(v: u64) -> Seq<u8> {
    spec_u64_to_le_bytes(v)
}

/// The bytes of a 32-bit integer on the wire.
pub open spec fn u32_wire(v: u32) -> Seq<u8> {
    spec_u32_to_le_bytes(v)
}

/// Appends the eight bytes of `v` to `out`.
pub fn put_u64(out: &mut Vec<u8>, v: u64)
    ensures
        final(out)@ == old(out)@ + u64_wire(v),
{
    let mut scratch: Vec<u8> = vec![0u8; 8];
    if let Ok(used) = marshal_u64(&mut scratch, v) {
        scratch.truncate(used);
        assert(scratch@ == u64_wire(v));
        out.append(&mut scratch);
    }
}

/// Reads the integer held in the eight bytes of `buf` from `at` on; `None`
/// when `buf` ends before that.
pub fn get_u64(buf: &[u8], at: usize) -> (r: Option<u64>)
    ensures
        match r {
            Some(v) => at + 8 <= buf.len() && buf@.subrange(at as int, at + 8) == u64_wire(v),
            None => buf.len() < at + 8,
        },
{
    if buf.len() < 8 || at > buf.len() - 8 {
        return None;
    }
    let field = slice_subrange(buf, at, at + 8);
    proof {
        lemma_auto_spec_u64_to_from_le_bytes();
        assert(field@.take(8) == field@);
    }
    match unmarshal_u64(field) {
        Ok((v, _)) => Some(v),
        Err(_) => None,
    }
}

/// Appends the four bytes of `v` to `out`.
pub fn put_u32(out: &mut Vec<u8>, v: u32)
    ensures
        final(out)@ == old(out)@ + u32_wire(v),
{
    let mut scratch: Vec<u8> = vec![0u8; 4];
    if let Ok(used) = marshal_u32(&mut scratch, v) {
        scratch.truncate(used);
        assert(scratch@ == u32_wire(v));
        out.append(&mut scratch);
    }
}

/// Reads the integer held in the four bytes of `buf` from `at` on; `None`
/// when `buf` ends before that.
pub fn get_u32(buf: &[u8], at: usize) -> (r: Option<u32>)
    ensures
        match r {
            Some(v) => at + 4 <= buf.len() && buf@.subrange(at as int, at + 4) == u32_wire(v),
            None => buf.len() < at + 4,
        },
{
    if buf.len() < 4 || at > buf.len() - 4 {
        return None;
    }
    let field = slice_subrange(buf, at, at + 4);
    proof {
        lemma_auto_spec_u32_to_from_le_bytes();
        assert(field@.take(4) == field@);
    }
    match unmarshal_u32(field) {
        Ok((v, _)) => Some(v),
        Err(_) => None,
    }
}

/// Integers of one width have encodings of one length, and different
/// integers have different encodings.
pub proof fn lemma_int_wire()
    ensures
        forall|v: u64| (#[trigger] u64_wire(v)).len() == 8,
        forall|a: u64, b: u64| #[trigger] u64_wire(a) == #[trigger] u64_wire(b) ==> a == b,
        forall|v: u32| (#[trigger] u32_wire(v)).len() == 4,
        forall|a: u32, b: u32| #[trigger] u32_wire(a) == #[trigger] u32_wire(b) ==> a == b,
{
    lemma_auto_spec_u64_to_from_le_bytes();
    lemma_auto_spec_u32_to_from_le_bytes();
    assert forall|a: u64, b: u64| #[trigger] u64_wire(a) == #[trigger] u64_wire(b) implies a
        == b by {
        assert(spec_u64_from_le_bytes(u64_wire(a)) == a);
        assert(spec_u64_from_le_bytes(u64_wire(b)) == b);
    }
    assert forall|a: u32, b: u32| #[trigger] u32_wire(a) == #[trigger] u32_wire(b) implies a
        == b by {
        assert(spec_u32_to_le_bytes(a).len() == 4 && spec_u32_to_le_bytes(b).len() == 4);
        assert(spec_u32_from_le_bytes(u32_wire(a)) == a);
        assert(spec_u32_from_le_bytes(u32_wire(b)) == b);
    }
}

/// No payload type has an encoding longer than this.
pub const WIRE_MAX: usize = 64;

/// A value with a place on the wire.
pub trait Payload: Sized {
    /// The bytes that stand for this value.
    spec fn wire(&self) -> Seq<u8>;

    /// The longest encoding of the type.
    spec fn wire_limit() -> nat;

    /// An encoding is never empty and never longer than the type's limit.
    proof fn lemma_wire_len(&self)
        ensures
            1 <= self.wire().len() <= Self::wire_limit() <= WIRE_MAX,
    ;

    /// Two values whose encodings both start the same byte string are the
    /// same value.
    proof fn lemma_prefix_free(&self, other: &Self, s: Seq<u8>)
        requires
            self.wire().is_prefix_of(s),
            other.wire().is_prefix_of(s),
        ensures
            self == other,
    ;

    /// Appends the encoding of `self` to `out`.
    fn write(&self, out: &mut Vec<u8>)
        ensures
            final(out)@ == old(out)@ + self.wire(),
    ;

    /// Reads the value whose encoding starts `buf` and says how many bytes
    /// it takes; `None` when `buf` starts with no value of the type.
    fn read(buf: &[u8]) -> (r: Option<(Self, usize)>)
        ensures
            match r {
                Some((v, n)) => v.wire().is_prefix_of(buf@) && n == v.wire().len(),
                None => forall|v: Self| !(#[trigger] v.wire()).is_prefix_of(buf@),
            },
    ;
}

/// A byte string starts with `a + b` exactly when it starts with `a` and
/// what follows `a` starts with `b`.
pub proof fn lemma_prefix_concat(a: Seq<u8>, b: Seq<u8>, s: Seq<u8>)
    ensures
        (a + b).is_prefix_of(s) <==> a.is_prefix_of(s) && b.is_prefix_of(s.skip(a.len() as int)),
{
    let n = a.len() as int;
    if (a + b).is_prefix_of(s) {
        assert(a =~= s.subrange(0, n)) by {
            assert forall|i: int| 0 <= i < n implies a[i] == s.subrange(0, n)[i] by {
                assert((a + b)[i] == s.subrange(0, (a + b).len() as int)[i]);
            }
        }
        assert(b =~= s.skip(n).subrange(0, b.len() as int)) by {
            assert forall|i: int| 0 <= i < b.len() implies b[i] == s.skip(n).subrange(
                0,
                b.len() as int,
            )[i] by {
                assert((a + b)[n + i] == s.subrange(0, (a + b).len() as int)[n + i]);
            }
        }
    }
    if a.is_prefix_of(s) && b.is_prefix_of(s.skip(n)) {
        assert(a + b =~= s.subrange(0, (a + b).len() as int)) by {
            assert forall|i: int| 0 <= i < (a + b).len() implies (a + b)[i] == s.subrange(
                0,
                (a + b).len() as int,
            )[i] by {
                if i < n {
                    assert(a[i] == s.subrange(0, n)[i]);
                } else {
                    assert(b[i - n] == s.skip(n).subrange(0, b.len() as int)[i - n]);
                }
            }
        }
    }
}

/// A byte string starts with the byte `tag` and then `body` exactly when
/// its first byte is `tag` and the rest starts with `body`.
pub proof fn lemma_prefix_tagged(tag: u8, body: Seq<u8>, s: Seq<u8>)
    ensures
        (seq![tag] + body).is_prefix_of(s) <==> s.len() >= 1 && s[0] == tag && body.is_prefix_of(
            s.skip(1),
        ),
{
    lemma_prefix_concat(seq![tag], body, s);
    if s.len() >= 1 {
        assert(seq![tag].is_prefix_of(s) <==> s[0] == tag) by {
            if seq![tag].is_prefix_of(s) {
                assert(seq![tag][0] == s.subrange(0, 1)[0]);
            }
            if s[0] == tag {
                assert(seq![tag] =~= s.subrange(0, 1));
            }
        }
    }
}

/// Two integers whose encodings both start `s` are equal.
pub proof fn lemma_u64_prefix(a: u64, b: u64, s: Seq<u8>)
    requires
        u64_wire(a).is_prefix_of(s),
        u64_wire(b).is_prefix_of(s),
    ensures
        a == b,
{
    lemma_int_wire();
    assert(u64_wire(a) =~= u64_wire(b));
}

impl Payload for DateTime {
    open spec fn wire(&self) -> Seq<u8> {
        match *self {
            DateTime::Now => seq![0u8],
            DateTime::Utc(t) => seq![1u8] + u64_wire(t),
        }
    }

    open spec fn wire_limit() -> nat {
        9
    }

    proof fn lemma_wire_len(&self) {
        lemma_int_wire();
    }

    proof fn lemma_prefix_free(&self, other: &Self, s: Seq<u8>) {
        lemma_prefix_tagged(0, Seq::empty(), s);
        assert(seq![0u8] + Seq::<u8>::empty() =~= seq![0u8]);
        match (*self, *other) {
            (DateTime::Utc(a), DateTime::Utc(b)) => {
                lemma_prefix_tagged(1, u64_wire(a), s);
                lemma_prefix_tagged(1, u64_wire(b), s);
                lemma_u64_prefix(a, b, s.skip(1));
            },
            (DateTime::Utc(a), DateTime::Now) => {
                lemma_prefix_tagged(1, u64_wire(a), s);
            },
            (DateTime::Now, DateTime::Utc(b)) => {
                lemma_prefix_tagged(1, u64_wire(b), s);
            },
            (DateTime::Now, DateTime::Now) => {},
        }
    }

    fn write(&self, out: &mut Vec<u8>) {
        match *self {
            DateTime::Now => {
                out.push(0);
            },
            DateTime::Utc(t) => {
                out.push(1);
                put_u64(out, t);
            },
        }
        assert(final(out)@ =~= old(out)@ + self.wire());
    }

    fn read(buf: &[u8]) -> (r: Option<(Self, usize)>) {
        proof {
            lemma_int_wire();
            assert(seq![0u8] + Seq::<u8>::empty() =~= seq![0u8]);
            lemma_prefix_tagged(0, Seq::empty(), buf@);
            assert forall|t: u64| (#[trigger] DateTime::Utc(t).wire()).is_prefix_of(buf@)
                <==> buf@.len() >= 9 && buf@[0] == 1 && buf@.subrange(1, 9) == u64_wire(t) by {
                lemma_prefix_tagged(1, u64_wire(t), buf@);
                if buf@.len() >= 9 {
                    assert(buf@.skip(1).subrange(0, 8) =~= buf@.subrange(1, 9));
                }
            }
        }
        if buf.len() < 1 {
            return None;
        }
        let tag = buf[0];
        if tag == 0 {
            Some((DateTime::Now, 1))
        } else if tag == 1 {
            match get_u64(buf, 1) {
                Some(t) => Some((DateTime::Utc(t), 9)),
                None => None,
            }
        } else {
            None
        }
    }
}

/// The fields of `BlinkerOptions::On`, in the order they are written.
pub open spec fn blink_fields(date_time: DateTime, freq: u64, duration: u64) -> Seq<u8> {
    date_time.wire() + (u64_wire(freq) + u64_wire(duration))
}

/// Two field triples whose encodings both start `s` are equal.
proof fn lemma_blink_fields_prefix(
    d1: DateTime,
    f1: u64,
    n1: u64,
    d2: DateTime,
    f2: u64,
    n2: u64,
    s: Seq<u8>,
)
    requires
        blink_fields(d1, f1, n1).is_prefix_of(s),
        blink_fields(d2, f2, n2).is_prefix_of(s),
    ensures
        d1 == d2,
        f1 == f2,
        n1 == n2,
{
    lemma_int_wire();
    lemma_prefix_concat(d1.wire(), u64_wire(f1) + u64_wire(n1), s);
    lemma_prefix_concat(d2.wire(), u64_wire(f2) + u64_wire(n2), s);
    d1.lemma_prefix_free(&d2, s);
    let rest = s.skip(d1.wire().len() as int);
    lemma_prefix_concat(u64_wire(f1), u64_wire(n1), rest);
    lemma_prefix_concat(u64_wire(f2), u64_wire(n2), rest);
    lemma_u64_prefix(f1, f2, rest);
    lemma_u64_prefix(n1, n2, rest.skip(8));
}

/// What it takes for `s` to start with the encoding of
/// `BlinkerOptions::On` with the given fields.
pub open spec fn blinker_on_starts(d: DateTime, f: u64, n: u64, s: Seq<u8>) -> bool {
    let k = d.wire().len() as int;
    &&& s.len() >= 17 + k
    &&& s[0] == 1
    &&& d.wire().is_prefix_of(s.skip(1))
    &&& s.subrange(1 + k, 9 + k) == u64_wire(f)
    &&& s.subrange(9 + k, 17 + k) == u64_wire(n)
}

proof fn lemma_blinker_on(d: DateTime, f: u64, n: u64, s: Seq<u8>)
    ensures
        (BlinkerOptions::On { date_time: d, freq: f, duration: n }).wire().is_prefix_of(s)
            <==> blinker_on_starts(d, f, n, s),
{
    lemma_int_wire();
    let k = d.wire().len() as int;
    let rest = s.skip(1);
    lemma_prefix_tagged(1, blink_fields(d, f, n), s);
    lemma_prefix_concat(d.wire(), u64_wire(f) + u64_wire(n), rest);
    lemma_prefix_concat(u64_wire(f), u64_wire(n), rest.skip(k));
    if s.len() >= 17 + k {
        assert(rest.skip(k).subrange(0, 8) =~= s.subrange(1 + k, 9 + k));
        assert(rest.skip(k).skip(8).subrange(0, 8) =~= s.subrange(9 + k, 17 + k));
    }
}

impl Payload for BlinkerOptions {
    open spec fn wire(&self) -> Seq<u8> {
        match *self {
            BlinkerOptions::Off => seq![0u8],
            BlinkerOptions::On { date_time, freq, duration } => seq![1u8] + blink_fields(
                date_time,
                freq,
                duration,
            ),
        }
    }

    open spec fn wire_limit() -> nat {
        26
    }

    proof fn lemma_wire_len(&self) {
        lemma_int_wire();
        if let BlinkerOptions::On { date_time, .. } = *self {
            date_time.lemma_wire_len();
        }
    }

    proof fn lemma_prefix_free(&self, other: &Self, s: Seq<u8>) {
        lemma_prefix_tagged(0, Seq::empty(), s);
        assert(seq![0u8] + Seq::<u8>::empty() =~= seq![0u8]);
        if let BlinkerOptions::On { date_time, freq, duration } = *self {
            lemma_prefix_tagged(1, blink_fields(date_time, freq, duration), s);
        }
        if let BlinkerOptions::On { date_time, freq, duration } = *other {
            lemma_prefix_tagged(1, blink_fields(date_time, freq, duration), s);
        }
        if let BlinkerOptions::On { date_time: d1, freq: f1, duration: n1 } = *self {
            if let BlinkerOptions::On { date_time: d2, freq: f2, duration: n2 } = *other {
                lemma_blink_fields_prefix(d1, f1, n1, d2, f2, n2, s.skip(1));
            }
        }
    }

    fn write(&self, out: &mut Vec<u8>) {
        match *self {
            BlinkerOptions::Off => {
                out.push(0);
            },
            BlinkerOptions::On { date_time, freq, duration } => {
                out.push(1);
                date_time.write(out);
                put_u64(out, freq);
                put_u64(out, duration);
            },
        }
        assert(final(out)@ =~= old(out)@ + self.wire());
    }

    fn read(buf: &[u8]) -> (r: Option<(Self, usize)>) {
        proof {
            lemma_int_wire();
            assert(seq![0u8] + Seq::<u8>::empty() =~= seq![0u8]);
            lemma_prefix_tagged(0, Seq::empty(), buf@);
            assert forall|d: DateTime, f: u64, n: u64|
                (#[trigger] BlinkerOptions::On { date_time: d, freq: f, duration: n }.wire())
                    .is_prefix_of(buf@) implies blinker_on_starts(d, f, n, buf@) by {
                lemma_blinker_on(d, f, n, buf@);
            }
        }
        if buf.len() < 1 {
            return None;
        }
        let tag = buf[0];
        if tag == 0 {
            return Some((BlinkerOptions::Off, 1));
        }
        if tag != 1 {
            return None;
        }
        let fields = slice_subrange(buf, 1, buf.len());
        let (date_time, used) = match DateTime::read(fields) {
            Some(found) => found,
            None => {
                return None;
            },
        };
        proof {
            date_time.lemma_wire_len();
            assert forall|d: DateTime| (#[trigger] d.wire()).is_prefix_of(fields@) implies d
                == date_time by {
                d.lemma_prefix_free(&date_time, fields@);
            }
        }
        let freq = match get_u64(buf, 1 + used) {
            Some(v) => v,
            None => {
                return None;
            },
        };
        let duration = match get_u64(buf, 9 + used) {
            Some(v) => v,
            None => {
                return None;
            },
        };
        proof {
            lemma_blinker_on(date_time, freq, duration, buf@);
        }
        Some((BlinkerOptions::On { date_time, freq, duration }, 17 + used))
    }
}

impl Payload for Command {
    open spec fn wire(&self) -> Seq<u8> {
        match *self {
            Command::SetBlinker(options) => seq![0u8] + options.wire(),
            Command::SetDateTime(date_time) => seq![1u8] + date_time.wire(),
            Command::RgbOn => seq![2u8],
            Command::RgbOff => seq![3u8],
        }
    }

    open spec fn wire_limit() -> nat {
        27
    }

    proof fn lemma_wire_len(&self) {
        match *self {
            Command::SetBlinker(options) => {
                options.lemma_wire_len();
            },
            Command::SetDateTime(date_time) => {
                date_time.lemma_wire_len();
            },
            _ => {},
        }
    }

    proof fn lemma_prefix_free(&self, other: &Self, s: Seq<u8>) {
        lemma_command_tag(*self, s);
        lemma_command_tag(*other, s);
        match (*self, *other) {
            (Command::SetBlinker(a), Command::SetBlinker(b)) => {
                a.lemma_prefix_free(&b, s.skip(1));
            },
            (Command::SetDateTime(a), Command::SetDateTime(b)) => {
                a.lemma_prefix_free(&b, s.skip(1));
            },
            _ => {},
        }
    }

    fn write(&self, out: &mut Vec<u8>) {
        match *self {
            Command::SetBlinker(options) => {
                out.push(0);
                options.write(out);
            },
            Command::SetDateTime(date_time) => {
                out.push(1);
                date_time.write(out);
            },
            Command::RgbOn => {
                out.push(2);
            },
            Command::RgbOff => {
                out.push(3);
            },
        }
        assert(final(out)@ =~= old(out)@ + self.wire());
    }

    fn read(buf: &[u8]) -> (r: Option<(Self, usize)>) {
        proof {
            assert forall|c: Command| (#[trigger] c.wire()).is_prefix_of(buf@) implies buf@.len()
                >= 1 && buf@[0] == command_tag(c) && (c matches Command::SetBlinker(o)
                ==> o.wire().is_prefix_of(buf@.skip(1))) && (c matches Command::SetDateTime(d)
                ==> d.wire().is_prefix_of(buf@.skip(1))) by {
                lemma_command_tag(c, buf@);
            }
        }
        if buf.len() < 1 {
            return None;
        }
        let tag = buf[0];
        let body = slice_subrange(buf, 1, buf.len());
        if tag == 0 {
            match BlinkerOptions::read(body) {
                Some((options, used)) => {
                    proof {
                        lemma_command_tag(Command::SetBlinker(options), buf@);
                    }
                    Some((Command::SetBlinker(options), used + 1))
                },
                None => None,
            }
        } else if tag == 1 {
            match DateTime::read(body) {
                Some((date_time, used)) => {
                    proof {
                        lemma_command_tag(Command::SetDateTime(date_time), buf@);
                    }
                    Some((Command::SetDateTime(date_time), used + 1))
                },
                None => None,
            }
        } else if tag == 2 {
            proof {
                lemma_command_tag(Command::RgbOn, buf@);
            }
            Some((Command::RgbOn, 1))
        } else if tag == 3 {
            proof {
                lemma_command_tag(Command::RgbOff, buf@);
            }
            Some((Command::RgbOff, 1))
        } else {
            None
        }
    }
}

/// The first byte of a command's encoding: the index of its variant.
pub open spec fn command_tag(c: Command) -> u8 {
    match c {
        Command::SetBlinker(_) => 0,
        Command::SetDateTime(_) => 1,
        Command::RgbOn => 2,
        Command::RgbOff => 3,
    }
}

/// A byte string starts with the encoding of `c` exactly when its first
/// byte is the tag of `c` and the rest starts with the encoding of what `c`
/// carries.
proof fn lemma_command_tag(c: Command, s: Seq<u8>)
    ensures
        c.wire().is_prefix_of(s) <==> s.len() >= 1 && s[0] == command_tag(c) && (c matches Command::SetBlinker(
            o,
        ) ==> o.wire().is_prefix_of(s.skip(1))) && (c matches Command::SetDateTime(d)
            ==> d.wire().is_prefix_of(s.skip(1))),
{
    match c {
        Command::SetBlinker(o) => {
            lemma_prefix_tagged(0, o.wire(), s);
        },
        Command::SetDateTime(d) => {
            lemma_prefix_tagged(1, d.wire(), s);
        },
        Command::RgbOn => {
            lemma_prefix_tagged(2, Seq::empty(), s);
            assert(seq![2u8] + Seq::<u8>::empty() =~= seq![2u8]);
        },
        Command::RgbOff => {
            lemma_prefix_tagged(3, Seq::empty(), s);
            assert(seq![3u8] + Seq::<u8>::empty() =~= seq![3u8]);
        },
    }
}

/// The one byte of an acknowledgement: the index of its variant.
pub open spec fn ack_tag(a: Ack) -> u8 {
    match a {
        Ack::Okay => 0,
        Ack::Recovered => 1,
        Ack::NotOk => 2,
    }
}

proof fn lemma_ack_tag(a: Ack, s: Seq<u8>)
    ensures
        a.wire().is_prefix_of(s) <==> s.len() >= 1 && s[0] == ack_tag(a),
{
    lemma_prefix_tagged(ack_tag(a), Seq::empty(), s);
    assert(seq![ack_tag(a)] + Seq::<u8>::empty() =~= seq![ack_tag(a)]);
}

impl Payload for Ack {
    open spec fn wire(&self) -> Seq<u8> {
        seq![ack_tag(*self)]
    }

    open spec fn wire_limit() -> nat {
        1
    }

    proof fn lemma_wire_len(&self) {
    }

    proof fn lemma_prefix_free(&self, other: &Self, s: Seq<u8>) {
        lemma_ack_tag(*self, s);
        lemma_ack_tag(*other, s);
    }

    fn write(&self, out: &mut Vec<u8>) {
        let tag: u8 = match *self {
            Ack::Okay => 0,
            Ack::Recovered => 1,
            Ack::NotOk => 2,
        };
        out.push(tag);
        assert(final(out)@ =~= old(out)@ + self.wire());
    }

    fn read(buf: &[u8]) -> (r: Option<(Self, usize)>) {
        proof {
            assert forall|a: Ack| (#[trigger] a.wire()).is_prefix_of(buf@) implies buf@.len() >= 1
                && buf@[0] == ack_tag(a) by {
                lemma_ack_tag(a, buf@);
            }
            lemma_ack_tag(Ack::Okay, buf@);
            lemma_ack_tag(Ack::Recovered, buf@);
            lemma_ack_tag(Ack::NotOk, buf@);
        }
        if buf.len() < 1 {
            return None;
        }
        let tag = buf[0];
        if tag == 0 {
            Some((Ack::Okay, 1))
        } else if tag == 1 {
            Some((Ack::Recovered, 1))
        } else if tag == 2 {
            Some((Ack::NotOk, 1))
        } else {
            None
        }
    }
}

/// The value whose encoding starts `bytes`, with the length of that
/// encoding.
pub open spec fn parsed<T: Payload>(bytes: Seq<u8>) -> Option<(T, nat)> {
    if exists|v: T| (#[trigger] v.wire()).is_prefix_of(bytes) {
        let v = choose|v: T| (#[trigger] v.wire()).is_prefix_of(bytes);
        Some((v, v.wire().len()))
    } else {
        None
    }
}

/// Parsing finds exactly the value that was written, whatever follows it.
pub proof fn law_parse_inverts_write<T: Payload>(v: T, rest: Seq<u8>)
    ensures
        parsed::<T>(v.wire() + rest) == Some((v, v.wire().len())),
{
    let s = v.wire() + rest;
    assert(v.wire() =~= s.subrange(0, v.wire().len() as int));
    assert(v.wire().is_prefix_of(s));
    let w = choose|w: T| (#[trigger] w.wire()).is_prefix_of(s);
    w.lemma_prefix_free(&v, s);
}

/// A byte string is parsed to `v` exactly when it starts with the encoding
/// of `v`.
pub proof fn law_parsed_is_prefix<T: Payload>(v: T, bytes: Seq<u8>)
    ensures
        v.wire().is_prefix_of(bytes) <==> parsed::<T>(bytes) == Some((v, v.wire().len())),
{
    if v.wire().is_prefix_of(bytes) {
        let w = choose|w: T| (#[trigger] w.wire()).is_prefix_of(bytes);
        w.lemma_prefix_free(&v, bytes);
    }
}

} // verus!
