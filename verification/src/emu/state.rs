//! Little-endian save-state serialisation shared by the cores.
//!
//! Every variable-length field is `u32`-length-prefixed so [`Reader`] can
//! bounds-check it; a truncated or corrupt state is an `Err`, never a panic.
//!
//! A format is described by pairs of functions: `put_*` gives the bytes of a
//! value followed by whatever comes after it, and `get_*` splits them again.

use crate::emu::text::{decimal, numbered, push_decimal};
use vstd::prelude::*;
use vstd::slice::slice_subrange;

verus! {

pub open spec fn put_u8(v: u8, rest: Seq<u8>) -> Seq<u8> {
    seq![v] + rest
}

pub open spec fn get_u8(s: Seq<u8>) -> (u8, Seq<u8>) {
    (s[0], s.skip(1))
}

pub open spec fn put_bool(v: bool, rest: Seq<u8>) -> Seq<u8> {
    put_u8(
        if v {
            1
        } else {
            0
        },
        rest,
    )
}

/// Any byte but 0 is true.
pub open spec fn get_bool(s: Seq<u8>) -> (bool, Seq<u8>) {
    (get_u8(s).0 != 0, get_u8(s).1)
}

pub open spec fn put_u16(v: u16, rest: Seq<u8>) -> Seq<u8> {
    put_u8((v % 256) as u8, put_u8((v / 256) as u8, rest))
}

pub open spec fn get_u16(s: Seq<u8>) -> (u16, Seq<u8>) {
    let (lo, s1) = get_u8(s);
    let (hi, s2) = get_u8(s1);
    ((lo + hi * 256) as u16, s2)
}

pub open spec fn put_u32(v: u32, rest: Seq<u8>) -> Seq<u8> {
    put_u16((v % 0x1_0000) as u16, put_u16((v / 0x1_0000) as u16, rest))
}

pub open spec fn get_u32(s: Seq<u8>) -> (u32, Seq<u8>) {
    let (lo, s1) = get_u16(s);
    let (hi, s2) = get_u16(s1);
    ((lo + hi * 0x1_0000) as u32, s2)
}

pub open spec fn put_u64(v: u64, rest: Seq<u8>) -> Seq<u8> {
    put_u32((v % 0x1_0000_0000) as u32, put_u32((v / 0x1_0000_0000) as u32, rest))
}

pub open spec fn get_u64(s: Seq<u8>) -> (u64, Seq<u8>) {
    let (lo, s1) = get_u32(s);
    let (hi, s2) = get_u32(s1);
    ((lo + hi * 0x1_0000_0000) as u64, s2)
}

pub open spec fn put_raw(bytes: Seq<u8>, rest: Seq<u8>) -> Seq<u8> {
    bytes + rest
}

/// The array with the elements `s`.
pub open spec fn to_array<const N: usize>(s: Seq<u8>) -> [u8; N] {
    choose|a: [u8; N]| a@ =~= s
}

pub open spec fn get_array<const N: usize>(s: Seq<u8>) -> ([u8; N], Seq<u8>) {
    (to_array::<N>(s.take(N as int)), s.skip(N as int))
}

pub open spec fn put_bytes(bytes: Seq<u8>, rest: Seq<u8>) -> Seq<u8> {
    put_u32(bytes.len() as u32, put_raw(bytes, rest))
}

/// Whether `s` begins with a length and at least that many bytes.
pub open spec fn has_bytes(s: Seq<u8>) -> bool {
    s.len() >= 4 && get_u32(s).0 <= s.len() - 4
}

pub open spec fn get_bytes(s: Seq<u8>) -> (Seq<u8>, Seq<u8>) {
    let (n, s1) = get_u32(s);
    (s1.take(n as int), s1.skip(n as int))
}

pub broadcast proof fn u8_round_trip(v: u8, rest: Seq<u8>)
    ensures
        #[trigger] get_u8(put_u8(v, rest)) == (v, rest),
        put_u8(v, rest).len() == rest.len() + 1,
{
    assert(put_u8(v, rest).skip(1) =~= rest);
}

pub broadcast proof fn bool_round_trip(v: bool, rest: Seq<u8>)
    ensures
        #[trigger] get_bool(put_bool(v, rest)) == (v, rest),
        put_bool(v, rest).len() == rest.len() + 1,
{
    broadcast use u8_round_trip;

}

pub broadcast proof fn u16_round_trip(v: u16, rest: Seq<u8>)
    ensures
        #[trigger] get_u16(put_u16(v, rest)) == (v, rest),
        put_u16(v, rest).len() == rest.len() + 2,
{
    broadcast use u8_round_trip;

}

pub broadcast proof fn u32_round_trip(v: u32, rest: Seq<u8>)
    ensures
        #[trigger] get_u32(put_u32(v, rest)) == (v, rest),
        put_u32(v, rest).len() == rest.len() + 4,
{
    broadcast use u16_round_trip;

}

pub broadcast proof fn u64_round_trip(v: u64, rest: Seq<u8>)
    ensures
        #[trigger] get_u64(put_u64(v, rest)) == (v, rest),
        put_u64(v, rest).len() == rest.len() + 8,
{
    broadcast use u32_round_trip;

}

pub broadcast proof fn array_round_trip<const N: usize>(a: [u8; N], rest: Seq<u8>)
    ensures
        #[trigger] get_array::<N>(put_raw(a@, rest)) == (a, rest),
        put_raw(a@, rest).len() == rest.len() + N,
{
    let s = put_raw(a@, rest);
    assert(s.take(N as int) =~= a@);
    assert(s.skip(N as int) =~= rest);
    lemma_to_array(a);
}

/// An array is the one with its elements.
pub proof fn lemma_to_array<const N: usize>(a: [u8; N])
    ensures
        to_array::<N>(a@) == a,
{
    let b = to_array::<N>(a@);
    assert(a@ =~= a@);
    assert(b@ =~= a@);
    assert(b =~= a) by {
        assert forall|i: int| 0 <= i < N implies b[i] == a[i] by {
            assert(b@[i] == a@[i]);
        }
    }
}

pub broadcast proof fn bytes_round_trip(bytes: Seq<u8>, rest: Seq<u8>)
    requires
        bytes.len() <= u32::MAX,
    ensures
        #[trigger] get_bytes(put_bytes(bytes, rest)) == (bytes, rest),
        has_bytes(put_bytes(bytes, rest)),
        put_bytes(bytes, rest).len() == rest.len() + 4 + bytes.len(),
{
    broadcast use u32_round_trip;

    let s1 = put_raw(bytes, rest);
    assert(s1.take(bytes.len() as int) =~= bytes);
    assert(s1.skip(bytes.len() as int) =~= rest);
}

/// Reading back what was written, field kind by field kind.
pub broadcast group group_round_trips {
    u8_round_trip,
    bool_round_trip,
    u16_round_trip,
    u32_round_trip,
    u64_round_trip,
    array_round_trip,
    bytes_round_trip,
}

pub broadcast proof fn u8_extends(s: Seq<u8>, t: Seq<u8>)
    requires
        s.len() >= 1,
    ensures
        #[trigger] get_u8(s + t) == (get_u8(s).0, get_u8(s).1 + t),
        get_u8(s).1.len() == s.len() - 1,
{
    assert((s + t).skip(1) =~= s.skip(1) + t);
}

pub broadcast proof fn bool_extends(s: Seq<u8>, t: Seq<u8>)
    requires
        s.len() >= 1,
    ensures
        #[trigger] get_bool(s + t) == (get_bool(s).0, get_bool(s).1 + t),
        get_bool(s).1.len() == s.len() - 1,
{
    broadcast use u8_extends;

}

pub broadcast proof fn u16_extends(s: Seq<u8>, t: Seq<u8>)
    requires
        s.len() >= 2,
    ensures
        #[trigger] get_u16(s + t) == (get_u16(s).0, get_u16(s).1 + t),
        get_u16(s).1.len() == s.len() - 2,
{
    broadcast use u8_extends;

}

pub broadcast proof fn u32_extends(s: Seq<u8>, t: Seq<u8>)
    requires
        s.len() >= 4,
    ensures
        #[trigger] get_u32(s + t) == (get_u32(s).0, get_u32(s).1 + t),
        get_u32(s).1.len() == s.len() - 4,
{
    broadcast use u16_extends;

}

pub broadcast proof fn u64_extends(s: Seq<u8>, t: Seq<u8>)
    requires
        s.len() >= 8,
    ensures
        #[trigger] get_u64(s + t) == (get_u64(s).0, get_u64(s).1 + t),
        get_u64(s).1.len() == s.len() - 8,
{
    broadcast use u32_extends;

}

pub broadcast proof fn array_extends<const N: usize>(s: Seq<u8>, t: Seq<u8>)
    requires
        s.len() >= N,
    ensures
        #[trigger] get_array::<N>(s + t) == (get_array::<N>(s).0, get_array::<N>(s).1 + t),
        get_array::<N>(s).1.len() == s.len() - N,
{
    assert((s + t).take(N as int) =~= s.take(N as int));
    assert((s + t).skip(N as int) =~= s.skip(N as int) + t);
}

pub broadcast proof fn bytes_extends(s: Seq<u8>, t: Seq<u8>)
    requires
        has_bytes(s),
    ensures
        #[trigger] get_bytes(s + t) == (get_bytes(s).0, get_bytes(s).1 + t),
        has_bytes(s + t),
{
    broadcast use u32_extends;

    let (n, s1) = get_u32(s);
    assert((s1 + t).take(n as int) =~= s1.take(n as int));
    assert((s1 + t).skip(n as int) =~= s1.skip(n as int) + t);
}

/// A field does not depend on what follows it.
pub broadcast group group_extends {
    u8_extends,
    bool_extends,
    u16_extends,
    u32_extends,
    u64_extends,
    array_extends,
    bytes_extends,
}

/// Little-endian serialiser.
pub struct Writer {
    pub buf: Vec<u8>,
}

impl View for Writer {
    type V = Seq<u8>;

    open spec fn view(&self) -> Seq<u8> {
        self.buf@
    }
}

impl Writer {
    pub fn new() -> (r: Writer)
        ensures
            r@ == Seq::<u8>::empty(),
    {
        Writer { buf: Vec::new() }
    }

    /// Start a state with a 4-byte magic and a format version.
    pub fn with_header(magic: &[u8; 4], version: u32) -> (r: Writer)
        ensures
            forall|rest: Seq<u8>| #[trigger] (r@ + rest) == put_raw(magic@, put_u32(version, rest)),
    {
        let mut w = Writer::new();
        let ghost empty = w@;
        w.raw(magic.as_slice());
        w.u32(version);
        proof {
            assert forall|rest: Seq<u8>| #[trigger] (w@ + rest) == put_raw(
                magic@,
                put_u32(version, rest),
            ) by {
                assert(w@ + rest == empty + put_raw(magic@, put_u32(version, rest)));
                assert(empty + put_raw(magic@, put_u32(version, rest)) =~= put_raw(
                    magic@,
                    put_u32(version, rest),
                ));
            }
        }
        w
    }

    pub fn u8(&mut self, v: u8)
        ensures
            forall|rest: Seq<u8>| #[trigger] (final(self)@ + rest) == old(self)@ + put_u8(v, rest),
    {
        self.buf.push(v);
        proof {
            assert forall|rest: Seq<u8>| #[trigger] (self@ + rest) == old(self)@ + put_u8(
                v,
                rest,
            ) by {
                assert(self@ + rest =~= old(self)@ + put_u8(v, rest));
            }
        }
    }

    pub fn u16(&mut self, v: u16)
        ensures
            forall|rest: Seq<u8>| #[trigger] (final(self)@ + rest) == old(self)@ + put_u16(v, rest),
    {
        self.u8((v % 256) as u8);
        self.u8((v / 256) as u8);
    }

    pub fn u32(&mut self, v: u32)
        ensures
            forall|rest: Seq<u8>| #[trigger] (final(self)@ + rest) == old(self)@ + put_u32(v, rest),
    {
        self.u16((v % 0x1_0000) as u16);
        self.u16((v / 0x1_0000) as u16);
    }

    pub fn u64(&mut self, v: u64)
        ensures
            forall|rest: Seq<u8>| #[trigger] (final(self)@ + rest) == old(self)@ + put_u64(v, rest),
    {
        self.u32((v % 0x1_0000_0000) as u32);
        self.u32((v / 0x1_0000_0000) as u32);
    }

    pub fn bool(&mut self, v: bool)
        ensures
            forall|rest: Seq<u8>|
                #[trigger] (final(self)@ + rest) == old(self)@ + put_bool(v, rest),
    {
        self.u8(
            if v {
                1
            } else {
                0
            },
        );
    }

    /// Length-prefixed bytes.
    pub fn bytes(&mut self, b: &[u8])
        ensures
            forall|rest: Seq<u8>|
                #[trigger] (final(self)@ + rest) == old(self)@ + put_bytes(b@, rest),
    {
        self.u32(#[verifier::truncate] (b.len() as u32));
        self.raw(b);
    }

    /// Raw bytes with no length prefix (read back with [`Reader::array`]).
    pub fn raw(&mut self, b: &[u8])
        ensures
            forall|rest: Seq<u8>| #[trigger] (final(self)@ + rest) == old(self)@ + put_raw(b@, rest),
    {
        self.buf.extend_from_slice(b);
        proof {
            assert(self@ =~= old(self)@ + b@);
            assert forall|rest: Seq<u8>| #[trigger] (self@ + rest) == old(self)@ + put_raw(
                b@,
                rest,
            ) by {
                assert(self@ + rest =~= old(self)@ + put_raw(b@, rest));
            }
        }
    }

    pub fn finish(self) -> (r: Vec<u8>)
        ensures
            r@ == self@,
    {
        self.buf
    }
}

impl Default for Writer {
    fn default() -> (r: Writer)
        ensures
            r@ == Seq::<u8>::empty(),
    {
        Writer::new()
    }
}

/// Bounds-checked reader matching [`Writer`].
pub struct Reader<'a> {
    pub data: &'a [u8],
    pub pos: usize,
}

/// What reading past the end says.
pub open spec fn end_message() -> Seq<char> {
    "unexpected end of state"@
}

impl<'a> Reader<'a> {
    /// The position lies within the data.
    pub open spec fn wf(self) -> bool {
        self.pos <= self.data@.len()
    }

    /// The bytes not consumed yet.
    pub open spec fn rest(self) -> Seq<u8> {
        self.data@.skip(self.pos as int)
    }

    pub fn new(data: &'a [u8]) -> (r: Reader<'a>)
        ensures
            r.wf(),
            r.data@ == data@,
            r.rest() == data@,
    {
        let r = Reader { data, pos: 0 };
        assert(r.rest() =~= data@);
        r
    }

    fn end() -> (r: String)
        ensures
            r@ == end_message(),
    {
        "unexpected end of state".to_owned()
    }

    /// The next byte of a state known to hold it.
    pub fn next_u8(&mut self) -> (r: u8)
        requires
            old(self).wf(),
            old(self).rest().len() >= 1,
        ensures
            final(self).wf(),
            final(self).data@ == old(self).data@,
            (r, final(self).rest()) == get_u8(old(self).rest()),
            final(self).rest().len() == old(self).rest().len() - 1,
    {
        let v: u8 = self.data[self.pos];
        self.pos = self.pos + 1;
        assert(self.rest() =~= old(self).rest().skip(1));
        v
    }

    pub fn next_bool(&mut self) -> (r: bool)
        requires
            old(self).wf(),
            old(self).rest().len() >= 1,
        ensures
            final(self).wf(),
            final(self).data@ == old(self).data@,
            (r, final(self).rest()) == get_bool(old(self).rest()),
            final(self).rest().len() == old(self).rest().len() - 1,
    {
        self.next_u8() != 0
    }

    pub fn next_u16(&mut self) -> (r: u16)
        requires
            old(self).wf(),
            old(self).rest().len() >= 2,
        ensures
            final(self).wf(),
            final(self).data@ == old(self).data@,
            (r, final(self).rest()) == get_u16(old(self).rest()),
            final(self).rest().len() == old(self).rest().len() - 2,
    {
        let lo: u8 = self.next_u8();
        let hi: u8 = self.next_u8();
        lo as u16 + hi as u16 * 256
    }

    pub fn next_u32(&mut self) -> (r: u32)
        requires
            old(self).wf(),
            old(self).rest().len() >= 4,
        ensures
            final(self).wf(),
            final(self).data@ == old(self).data@,
            (r, final(self).rest()) == get_u32(old(self).rest()),
            final(self).rest().len() == old(self).rest().len() - 4,
    {
        let lo: u16 = self.next_u16();
        let hi: u16 = self.next_u16();
        lo as u32 + hi as u32 * 0x1_0000
    }

    pub fn next_u64(&mut self) -> (r: u64)
        requires
            old(self).wf(),
            old(self).rest().len() >= 8,
        ensures
            final(self).wf(),
            final(self).data@ == old(self).data@,
            (r, final(self).rest()) == get_u64(old(self).rest()),
            final(self).rest().len() == old(self).rest().len() - 8,
    {
        let lo: u32 = self.next_u32();
        let hi: u32 = self.next_u32();
        lo as u64 + hi as u64 * 0x1_0000_0000
    }

    pub fn next_array<const N: usize>(&mut self) -> (r: [u8; N])
        requires
            old(self).wf(),
            old(self).rest().len() >= N,
        ensures
            final(self).wf(),
            final(self).data@ == old(self).data@,
            (r, final(self).rest()) == get_array::<N>(old(self).rest()),
            r@ == old(self).rest().take(N as int),
            final(self).rest().len() == old(self).rest().len() - N,
    {
        let total: usize = self.data.len();
        let mut out: [u8; N] = [0; N];
        let mut i: usize = 0;
        while i < N
            invariant
                i <= N,
                total == self.data@.len(),
                self.pos + N <= self.data@.len(),
                *self == *old(self),
                forall|k: int| 0 <= k < i ==> out@[k] == #[trigger] old(self).rest()[k],
            decreases N - i,
        {
            out[i] = self.data[self.pos + i];
            i = i + 1;
        }
        self.pos = self.pos + N;
        proof {
            assert(out@ =~= old(self).rest().take(N as int));
            lemma_to_array(out);
            assert(self.rest() =~= old(self).rest().skip(N as int));
        }
        out
    }

    /// The next `n` bytes of a state known to hold them.
    pub fn next_slice(&mut self, n: usize) -> (r: &'a [u8])
        requires
            old(self).wf(),
            old(self).rest().len() >= n,
        ensures
            final(self).wf(),
            final(self).data@ == old(self).data@,
            r@ == old(self).rest().take(n as int),
            final(self).rest() == old(self).rest().skip(n as int),
    {
        let total: usize = self.data.len();
        assert(self.pos + n <= total);
        let b = slice_subrange(self.data, self.pos, self.pos + n);
        self.pos = self.pos + n;
        proof {
            assert(b@ =~= old(self).rest().take(n as int));
            assert(self.rest() =~= old(self).rest().skip(n as int));
        }
        b
    }

    /// Check the magic written by [`Writer::with_header`] and return the
    /// format version that follows it.
    pub fn with_header(data: &'a [u8], magic: &[u8; 4]) -> (r: Result<(Reader<'a>, u32), String>)
        ensures
            match r {
                Ok((reader, version)) => {
                    &&& data@.len() >= 8
                    &&& data@.take(4) == magic@
                    &&& reader.wf()
                    &&& reader.data@ == data@
                    &&& (version, reader.rest()) == get_u32(data@.skip(4))
                },
                Err(e) => {
                    ||| data@.len() < 4 && e@ == end_message()
                    ||| data@.len() >= 4 && data@.take(4) != magic@ && e@
                        == "not a save state for this system"@
                    ||| 4 <= data@.len() < 8 && data@.take(4) == magic@ && e@ == end_message()
                },
            },
    {
        let mut r = Reader::new(data);
        if r.remaining() < 4 {
            return Err(Self::end());
        }
        let got: [u8; 4] = r.next_array();
        if got[0] != magic[0] || got[1] != magic[1] || got[2] != magic[2] || got[3] != magic[3] {
            proof {
                assert(got@ == data@.take(4));
                if data@.take(4) == magic@ {
                    assert(got@[0] == magic@[0] && got@[1] == magic@[1] && got@[2] == magic@[2]
                        && got@[3] == magic@[3]);
                }
            }
            return Err("not a save state for this system".to_owned());
        }
        assert(data@.take(4) =~= magic@);
        assert(r.rest() =~= data@.skip(4));
        if r.remaining() < 4 {
            return Err(Self::end());
        }
        let version: u32 = r.next_u32();
        Ok((r, version))
    }

    pub fn u8(&mut self) -> (r: Result<u8, String>)
        requires
            old(self).wf(),
        ensures
            final(self).wf(),
            final(self).data@ == old(self).data@,
            match r {
                Ok(v) => old(self).rest().len() >= 1 && (v, final(self).rest()) == get_u8(
                    old(self).rest(),
                ),
                Err(e) => old(self).rest().len() < 1 && e@ == end_message() && *final(self)
                    == *old(self),
            },
    {
        if self.remaining() < 1 {
            return Err(Self::end());
        }
        Ok(self.next_u8())
    }

    pub fn u16(&mut self) -> (r: Result<u16, String>)
        requires
            old(self).wf(),
        ensures
            final(self).wf(),
            final(self).data@ == old(self).data@,
            match r {
                Ok(v) => old(self).rest().len() >= 2 && (v, final(self).rest()) == get_u16(
                    old(self).rest(),
                ),
                Err(e) => old(self).rest().len() < 2 && e@ == end_message() && *final(self)
                    == *old(self),
            },
    {
        if self.remaining() < 2 {
            return Err(Self::end());
        }
        Ok(self.next_u16())
    }

    pub fn u32(&mut self) -> (r: Result<u32, String>)
        requires
            old(self).wf(),
        ensures
            final(self).wf(),
            final(self).data@ == old(self).data@,
            match r {
                Ok(v) => old(self).rest().len() >= 4 && (v, final(self).rest()) == get_u32(
                    old(self).rest(),
                ),
                Err(e) => old(self).rest().len() < 4 && e@ == end_message() && *final(self)
                    == *old(self),
            },
    {
        if self.remaining() < 4 {
            return Err(Self::end());
        }
        Ok(self.next_u32())
    }

    pub fn u64(&mut self) -> (r: Result<u64, String>)
        requires
            old(self).wf(),
        ensures
            final(self).wf(),
            final(self).data@ == old(self).data@,
            match r {
                Ok(v) => old(self).rest().len() >= 8 && (v, final(self).rest()) == get_u64(
                    old(self).rest(),
                ),
                Err(e) => old(self).rest().len() < 8 && e@ == end_message() && *final(self)
                    == *old(self),
            },
    {
        if self.remaining() < 8 {
            return Err(Self::end());
        }
        Ok(self.next_u64())
    }

    pub fn bool(&mut self) -> (r: Result<bool, String>)
        requires
            old(self).wf(),
        ensures
            final(self).wf(),
            final(self).data@ == old(self).data@,
            match r {
                Ok(v) => old(self).rest().len() >= 1 && (v, final(self).rest()) == get_bool(
                    old(self).rest(),
                ),
                Err(e) => old(self).rest().len() < 1 && e@ == end_message() && *final(self)
                    == *old(self),
            },
    {
        if self.remaining() < 1 {
            return Err(Self::end());
        }
        Ok(self.next_bool())
    }

    /// Exactly `N` raw bytes (no length prefix).
    pub fn array<const N: usize>(&mut self) -> (r: Result<[u8; N], String>)
        requires
            old(self).wf(),
        ensures
            final(self).wf(),
            final(self).data@ == old(self).data@,
            match r {
                Ok(v) => old(self).rest().len() >= N && (v, final(self).rest()) == get_array::<N>(
                    old(self).rest(),
                ),
                Err(e) => old(self).rest().len() < N && e@ == end_message() && *final(self)
                    == *old(self),
            },
    {
        if self.remaining() < N {
            return Err(Self::end());
        }
        Ok(self.next_array())
    }

    /// Length-prefixed bytes, borrowed from the state.
    pub fn bytes(&mut self) -> (r: Result<&'a [u8], String>)
        requires
            old(self).wf(),
        ensures
            final(self).wf(),
            final(self).data@ == old(self).data@,
            match r {
                Ok(v) => has_bytes(old(self).rest()) && (v@, final(self).rest()) == get_bytes(
                    old(self).rest(),
                ),
                Err(e) => !has_bytes(old(self).rest()) && e@ == end_message()
                    && final(self).rest() == if old(self).rest().len() < 4 {
                    old(self).rest()
                } else {
                    old(self).rest().skip(4)
                },
            },
    {
        if self.remaining() < 4 {
            return Err(Self::end());
        }
        let len: u32 = self.next_u32();
        if (self.remaining() as u64) < len as u64 {
            return Err(Self::end());
        }
        Ok(self.next_slice(len as usize))
    }

    /// Length-prefixed bytes copied into `out`, which must match the stored
    /// length exactly.
    pub fn bytes_into(&mut self, out: &mut [u8]) -> (r: Result<(), String>)
        requires
            old(self).wf(),
        ensures
            final(self).wf(),
            final(self).data@ == old(self).data@,
            final(out)@.len() == old(out)@.len(),
            r is Ok <==> has_bytes(old(self).rest()) && get_bytes(old(self).rest()).0.len() == old(
                out,
            )@.len(),
            match r {
                Ok(()) => (final(out)@, final(self).rest()) == get_bytes(old(self).rest()),
                Err(e) => final(out)@ == old(out)@ && if !has_bytes(old(self).rest()) {
                    e@ == end_message() && final(self).rest() == if old(self).rest().len() < 4 {
                        old(self).rest()
                    } else {
                        old(self).rest().skip(4)
                    }
                } else {
                    final(self).rest() == get_bytes(old(self).rest()).1 && e@
                        == "state field is "@ + decimal(get_bytes(old(self).rest()).0.len())
                        + " bytes, expected "@ + decimal(old(out)@.len())
                },
            },
    {
        match self.bytes() {
            Err(e) => Err(e),
            Ok(b) => {
                if b.len() != out.len() {
                    let mut message = numbered("state field is ", b.len() as u64);
                    message.push_str(" bytes, expected ");
                    push_decimal(&mut message, out.len() as u64);
                    return Err(message);
                }
                let mut i: usize = 0;
                while i < b.len()
                    invariant
                        i <= b@.len(),
                        b@.len() == out@.len(),
                        out@.len() == old(out)@.len(),
                        forall|k: int| 0 <= k < i ==> out@[k] == #[trigger] b@[k],
                    decreases b@.len() - i,
                {
                    out[i] = b[i];
                    i = i + 1;
                }
                assert(out@ =~= b@);
                Ok(())
            },
        }
    }

    /// Bytes not consumed yet.
    pub fn remaining(&self) -> (r: usize)
        requires
            self.wf(),
        ensures
            r == self.rest().len(),
    {
        self.data.len() - self.pos
    }
}

/// A state with every kind of field reads back field by field, leaving what
/// follows it.
pub proof fn law_fields_round_trip(
    a: u8,
    b: u16,
    c: u32,
    d: u64,
    e: bool,
    bytes: Seq<u8>,
    raw: [u8; 2],
    rest: Seq<u8>,
)
    requires
        bytes.len() <= u32::MAX,
    ensures
        ({
            let s = put_u8(
                a,
                put_u16(
                    b,
                    put_u32(c, put_u64(d, put_bool(e, put_bytes(bytes, put_raw(raw@, rest))))),
                ),
            );
            let (ga, s1) = get_u8(s);
            let (gb, s2) = get_u16(s1);
            let (gc, s3) = get_u32(s2);
            let (gd, s4) = get_u64(s3);
            let (ge, s5) = get_bool(s4);
            let (gbytes, s6) = get_bytes(s5);
            let (graw, s7) = get_array::<2>(s6);
            (ga, gb, gc, gd, ge, gbytes, graw, s7) == (a, b, c, d, e, bytes, raw, rest)
        }),
{
    broadcast use group_round_trips;

}

} // verus!
