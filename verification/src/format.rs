//! Little-endian integers, checksums and the frame every encoded record
//! travels in.

use vstd::prelude::*;

verus! {

/// Bytes in front of a frame's payload: magic, payload length and checksum.
pub const FRAME_HEADER: usize = 12;

/// The bytes are not the encoding of any value.
#[derive(Clone, Copy, PartialEq, Eq, Debug, Structural)]
pub struct DecodeError;

// ---------------------------------------------------------------------------
// Little-endian integers
// ---------------------------------------------------------------------------

/// `256` to the power `width`: how many values fit in `width` bytes.
pub open spec fn byte_values(width: nat) -> nat
    decreases width,
{
    if width == 0 {
        1
    } else {
        256 * byte_values((width - 1) as nat)
    }
}

/// The `width` low-order bytes of `n`, least significant first.
pub open spec fn le_bytes(n: nat, width: nat) -> Seq<u8>
    decreases width,
{
    if width == 0 {
        Seq::empty()
    } else {
        seq![(n % 256) as u8] + le_bytes(n / 256, (width - 1) as nat)
    }
}

/// The number that `s` spells, least significant byte first.
pub open spec fn le_value(s: Seq<u8>) -> nat
    decreases s.len(),
{
    if s.len() == 0 {
        0
    } else {
        s[0] as nat + 256 * le_value(s.drop_first())
    }
}

pub proof fn lemma_byte_values()
    ensures
        byte_values(1) == 0x100,
        byte_values(2) == 0x1_0000,
        byte_values(4) == 0x1_0000_0000,
        byte_values(8) == 0x1_0000_0000_0000_0000,
{
    reveal_with_fuel(byte_values, 9);
}

pub proof fn lemma_le_bytes_len(n: nat, width: nat)
    ensures
        le_bytes(n, width).len() == width,
    decreases width,
{
    if width > 0 {
        lemma_le_bytes_len(n / 256, (width - 1) as nat);
    }
}

/// Writing a number that fits and reading it back gives the number.
pub proof fn lemma_le_value_of_bytes(n: nat, width: nat)
    requires
        n < byte_values(width),
    ensures
        le_value(le_bytes(n, width)) == n,
        le_bytes(n, width).len() == width,
    decreases width,
{
    lemma_le_bytes_len(n, width);
    if width > 0 {
        let rest = le_bytes(n / 256, (width - 1) as nat);
        assert(le_bytes(n, width).drop_first() =~= rest);
        lemma_le_value_of_bytes(n / 256, (width - 1) as nat);
    }
}

/// Reading bytes and writing the number back gives the bytes.
pub proof fn lemma_le_bytes_of_value(s: Seq<u8>)
    ensures
        le_bytes(le_value(s), s.len()) =~= s,
        le_value(s) < byte_values(s.len()),
    decreases s.len(),
{
    if s.len() > 0 {
        let tail = s.drop_first();
        lemma_le_bytes_of_value(tail);
        let n = le_value(s);
        assert(n % 256 == s[0] as nat && n / 256 == le_value(tail));
        assert(s =~= seq![s[0]] + tail);
    }
}

/// An integer in two bytes.
#[verifier::opaque]
pub open spec fn le16(n: u16) -> Seq<u8> {
    le_bytes(n as nat, 2)
}

/// An integer in four bytes.
#[verifier::opaque]
pub open spec fn le32(n: u32) -> Seq<u8> {
    le_bytes(n as nat, 4)
}

/// An integer in eight bytes.
#[verifier::opaque]
pub open spec fn le64(n: u64) -> Seq<u8> {
    le_bytes(n as nat, 8)
}

/// The first byte and what follows it.
pub open spec fn take_u8(s: Seq<u8>) -> Option<(u8, Seq<u8>)> {
    if s.len() < 1 {
        None
    } else {
        Some((s[0], s.skip(1)))
    }
}

/// The integer in the first bytes and what follows it.
pub open spec fn take_u16(s: Seq<u8>) -> Option<(u16, Seq<u8>)> {
    if s.len() < 2 {
        None
    } else {
        Some((le_value(s.take(2)) as u16, s.skip(2)))
    }
}

pub open spec fn take_u32(s: Seq<u8>) -> Option<(u32, Seq<u8>)> {
    if s.len() < 4 {
        None
    } else {
        Some((le_value(s.take(4)) as u32, s.skip(4)))
    }
}

pub open spec fn take_u64(s: Seq<u8>) -> Option<(u64, Seq<u8>)> {
    if s.len() < 8 {
        None
    } else {
        Some((le_value(s.take(8)) as u64, s.skip(8)))
    }
}

pub broadcast proof fn lemma_le16_len(n: u16)
    ensures
        (#[trigger] le16(n)).len() == 2,
{
    reveal(le16);
    lemma_le_bytes_len(n as nat, 2);
}

pub broadcast proof fn lemma_le32_len(n: u32)
    ensures
        (#[trigger] le32(n)).len() == 4,
{
    reveal(le32);
    lemma_le_bytes_len(n as nat, 4);
}

pub broadcast proof fn lemma_le64_len(n: u64)
    ensures
        (#[trigger] le64(n)).len() == 8,
{
    reveal(le64);
    lemma_le_bytes_len(n as nat, 8);
}

pub broadcast proof fn lemma_take_u8(v: u8, rest: Seq<u8>)
    ensures
        #[trigger] take_u8(seq![v] + rest) == Some((v, rest)),
{
    assert((seq![v] + rest).skip(1) =~= rest);
}

pub broadcast proof fn lemma_take_u16(v: u16, rest: Seq<u8>)
    ensures
        #[trigger] take_u16(le16(v) + rest) == Some((v, rest)),
{
    lemma_byte_values();
    lemma_le_value_of_bytes(v as nat, 2);
    reveal(le16);
    assert((le16(v) + rest).take(2) =~= le16(v));
}

pub broadcast proof fn lemma_take_u32(v: u32, rest: Seq<u8>)
    ensures
        #[trigger] take_u32(le32(v) + rest) == Some((v, rest)),
{
    lemma_byte_values();
    lemma_le_value_of_bytes(v as nat, 4);
    reveal(le32);
    assert((le32(v) + rest).take(4) =~= le32(v));
}

pub broadcast proof fn lemma_take_u64(v: u64, rest: Seq<u8>)
    ensures
        #[trigger] take_u64(le64(v) + rest) == Some((v, rest)),
{
    lemma_byte_values();
    lemma_le_value_of_bytes(v as nat, 8);
    reveal(le64);
    assert((le64(v) + rest).take(8) =~= le64(v));
}

/// Taking an integer splits the bytes into its encoding and the rest.
pub proof fn lemma_takes_split(s: Seq<u8>)
    ensures
        take_u8(s) matches Some((v, rest)) ==> s == seq![v] + rest,
        take_u16(s) matches Some((v, rest)) ==> s == le16(v) + rest,
        take_u32(s) matches Some((v, rest)) ==> s == le32(v) + rest,
        take_u64(s) matches Some((v, rest)) ==> s == le64(v) + rest,
{
    reveal(le16);
    reveal(le32);
    reveal(le64);
    lemma_byte_values();
    if s.len() >= 1 {
        assert(s =~= seq![s[0]] + s.skip(1));
    }
    if s.len() >= 2 {
        lemma_le_bytes_of_value(s.take(2));
        assert(s =~= s.take(2) + s.skip(2));
    }
    if s.len() >= 4 {
        lemma_le_bytes_of_value(s.take(4));
        assert(s =~= s.take(4) + s.skip(4));
    }
    if s.len() >= 8 {
        lemma_le_bytes_of_value(s.take(8));
        assert(s =~= s.take(8) + s.skip(8));
    }
}

pub broadcast group group_le_bytes {
    lemma_le16_len,
    lemma_le32_len,
    lemma_le64_len,
    lemma_take_u8,
    lemma_take_u16,
    lemma_take_u32,
    lemma_take_u64,
}

/// Appends the `width` low-order bytes of `value`.
fn put_le(out: &mut Vec<u8>, value: u64, width: usize)
    requires
        width <= 8,
    ensures
        final(out)@ == old(out)@ + le_bytes(value as nat, width as nat),
{
    let mut rest: u64 = value;
    let mut done: usize = 0;
    proof {
        assert(out@ + le_bytes(rest as nat, width as nat) =~= old(out)@ + le_bytes(
            value as nat,
            width as nat,
        ));
    }
    while done < width
        invariant
            done <= width,
            out@ + le_bytes(rest as nat, (width - done) as nat) == old(out)@ + le_bytes(
                value as nat,
                width as nat,
            ),
        decreases width - done,
    {
        let byte: u8 = (rest % 256) as u8;
        let ghost before = out@;
        let ghost left = (width - done) as nat;
        out.push(byte);
        proof {
            let tail = le_bytes((rest / 256) as nat, (left - 1) as nat);
            assert(before + (seq![byte] + tail) =~= before.push(byte) + tail);
        }
        rest = rest / 256;
        done = done + 1;
    }
    proof {
        assert(out@ + le_bytes(rest as nat, 0) =~= out@);
    }
}

/// The number that eight or fewer bytes spell.
fn get_le(bytes: &[u8]) -> (value: u64)
    requires
        bytes@.len() <= 8,
    ensures
        value as nat == le_value(bytes@),
{
    let mut at: usize = bytes.len();
    let mut value: u64 = 0;
    while at > 0
        invariant
            at <= bytes@.len(),
            bytes@.len() <= 8,
            value as nat == le_value(bytes@.skip(at as int)),
        decreases at,
    {
        at = at - 1;
        proof {
            let tail = bytes@.skip(at as int);
            assert(tail.drop_first() =~= bytes@.skip(at + 1));
            lemma_le_bytes_of_value(tail);
            lemma_le_bytes_of_value(bytes@.skip(at + 1));
            lemma_byte_values_monotone(tail.len(), 8);
            lemma_byte_values();
        }
        value = bytes[at] as u64 + 256 * value;
    }
    proof {
        assert(bytes@.skip(0) =~= bytes@);
    }
    value
}

proof fn lemma_byte_values_monotone(a: nat, b: nat)
    requires
        a <= b,
    ensures
        byte_values(a) <= byte_values(b),
    decreases b,
{
    if a < b {
        lemma_byte_values_monotone(a, (b - 1) as nat);
    }
}

// ---------------------------------------------------------------------------
// CRC-32C
// ---------------------------------------------------------------------------

/// The Castagnoli polynomial, least significant bit first.
pub const CRC32C_POLYNOMIAL: u32 = 0x82F6_3B78;

/// One step of the checksum register.
pub open spec fn crc_shift(register: u32) -> u32 {
    if register & 1 == 1 {
        (register >> 1) ^ CRC32C_POLYNOMIAL
    } else {
        register >> 1
    }
}

pub open spec fn crc_shifts(register: u32, count: nat) -> u32
    decreases count,
{
    if count == 0 {
        register
    } else {
        crc_shift(crc_shifts(register, (count - 1) as nat))
    }
}

/// The checksum register after the bytes of `s`.
pub open spec fn crc_register(s: Seq<u8>) -> u32
    decreases s.len(),
{
    if s.len() == 0 {
        0xFFFF_FFFF
    } else {
        crc_shifts(crc_register(s.drop_last()) ^ (s.last() as u32), 8)
    }
}

/// CRC-32C of `s`.
pub open spec fn crc32c_of(s: Seq<u8>) -> u32 {
    crc_register(s) ^ 0xFFFF_FFFF
}

/// CRC-32C of `bytes`.
pub fn crc32c(bytes: &[u8]) -> (crc: u32)
    ensures
        crc == crc32c_of(bytes@),
{
    let mut register: u32 = 0xFFFF_FFFF;
    let mut at: usize = 0;
    while at < bytes.len()
        invariant
            at <= bytes@.len(),
            register == crc_register(bytes@.take(at as int)),
        decreases bytes@.len() - at,
    {
        let ghost before = bytes@.take(at as int);
        let ghost mixed = register ^ (bytes@[at as int] as u32);
        register = register ^ (bytes[at] as u32);
        let mut bit: usize = 0;
        while bit < 8
            invariant
                bit <= 8,
                register == crc_shifts(mixed, bit as nat),
            decreases 8 - bit,
        {
            register = if register & 1 == 1 {
                (register >> 1) ^ CRC32C_POLYNOMIAL
            } else {
                register >> 1
            };
            bit = bit + 1;
        }
        at = at + 1;
        proof {
            assert(bytes@.take(at as int).drop_last() =~= before);
        }
    }
    proof {
        assert(bytes@.take(at as int) =~= bytes@);
    }
    register ^ 0xFFFF_FFFF
}

/// No step of the register loses anything: different registers stay different.
proof fn lemma_shift_injective(a: u32, b: u32)
    ensures
        crc_shift(a) == crc_shift(b) ==> a == b,
{
    assert(((if a & 1 == 1 {
        (a >> 1) ^ 0x82F6_3B78u32
    } else {
        a >> 1
    }) == (if b & 1 == 1 {
        (b >> 1) ^ 0x82F6_3B78u32
    } else {
        b >> 1
    })) ==> a == b) by (bit_vector);
}

proof fn lemma_shifts_injective(a: u32, b: u32, count: nat)
    ensures
        crc_shifts(a, count) == crc_shifts(b, count) ==> a == b,
    decreases count,
{
    if count > 0 {
        lemma_shifts_injective(a, b, (count - 1) as nat);
        lemma_shift_injective(
            crc_shifts(a, (count - 1) as nat),
            crc_shifts(b, (count - 1) as nat),
        );
    }
}

/// Changing one byte changes the register, and what follows does not undo it.
proof fn lemma_register_sees_a_byte(s: Seq<u8>, at: int, byte: u8)
    requires
        0 <= at < s.len(),
        byte != s[at],
    ensures
        crc_register(s.update(at, byte)) != crc_register(s),
    decreases s.len(),
{
    let t = s.update(at, byte);
    let x = crc_register(s.drop_last());
    let y = crc_register(t.drop_last());
    let last = s.last() as u32;
    let other = t.last() as u32;
    lemma_shifts_injective(x ^ last, y ^ other, 8);
    if at == s.len() - 1 {
        assert(t.drop_last() =~= s.drop_last());
        assert(last != other);
        assert(last != other ==> x ^ last != x ^ other) by (bit_vector);
    } else {
        assert(t.drop_last() =~= s.drop_last().update(at, byte));
        lemma_register_sees_a_byte(s.drop_last(), at, byte);
        assert(x != y ==> x ^ last != y ^ last) by (bit_vector);
    }
}

/// The checksum tells any two byte strings apart that differ in a single byte,
/// and so in a single bit.
pub proof fn the_checksum_sees_a_changed_byte(s: Seq<u8>, at: int, byte: u8)
    requires
        0 <= at < s.len(),
        byte != s[at],
    ensures
        crc32c_of(s.update(at, byte)) != crc32c_of(s),
{
    lemma_register_sees_a_byte(s, at, byte);
    let x = crc_register(s);
    let y = crc_register(s.update(at, byte));
    assert(x != y ==> x ^ 0xFFFF_FFFFu32 != y ^ 0xFFFF_FFFFu32) by (bit_vector);
}

// ---------------------------------------------------------------------------
// Frames
// ---------------------------------------------------------------------------

/// A payload with its header: magic, length and checksum.
pub open spec fn frame(magic: u32, payload: Seq<u8>) -> Seq<u8> {
    le_bytes(magic as nat, 4) + le_bytes(payload.len(), 4) + le_bytes(
        crc32c_of(payload) as nat,
        4,
    ) + payload
}

pub proof fn lemma_frame_len(magic: u32, payload: Seq<u8>)
    ensures
        frame(magic, payload).len() == FRAME_HEADER + payload.len(),
        frame(magic, payload).take(4) == le_bytes(magic as nat, 4),
        frame(magic, payload).subrange(4, 8) == le_bytes(payload.len(), 4),
        frame(magic, payload).subrange(8, 12) == le_bytes(crc32c_of(payload) as nat, 4),
        frame(magic, payload).skip(12) == payload,
{
    lemma_le_bytes_len(magic as nat, 4);
    lemma_le_bytes_len(payload.len(), 4);
    lemma_le_bytes_len(crc32c_of(payload) as nat, 4);
    let f = frame(magic, payload);
    assert(f.take(4) =~= le_bytes(magic as nat, 4));
    assert(f.subrange(4, 8) =~= le_bytes(payload.len(), 4));
    assert(f.subrange(8, 12) =~= le_bytes(crc32c_of(payload) as nat, 4));
    assert(f.skip(12) =~= payload);
}

/// A frame fixes its payload.
pub proof fn lemma_frame_injective(magic: u32, a: Seq<u8>, b: Seq<u8>)
    requires
        frame(magic, a) == frame(magic, b),
    ensures
        a == b,
{
    lemma_frame_len(magic, a);
    lemma_frame_len(magic, b);
}

/// A frame with a single byte changed, and so with a single bit flipped, is no
/// frame any more.
pub proof fn a_damaged_frame_is_no_frame(magic: u32, payload: Seq<u8>, at: int, byte: u8, q: Seq<u8>)
    requires
        payload.len() <= u32::MAX,
        0 <= at < frame(magic, payload).len(),
        byte != frame(magic, payload)[at],
    ensures
        frame(magic, payload).update(at, byte) != frame(magic, q),
{
    let f = frame(magic, payload);
    let g = f.update(at, byte);
    lemma_frame_len(magic, payload);
    lemma_frame_len(magic, q);
    if g == frame(magic, q) {
        assert(q.len() == payload.len());
        assert(g[at] == byte);
        if at < 4 {
            assert(f.take(4)[at] == f[at] && g.take(4)[at] == byte);
        } else if at < 8 {
            assert(f.subrange(4, 8)[at - 4] == f[at] && g.subrange(4, 8)[at - 4] == byte);
        } else if at < 12 {
            assert(f.skip(12) =~= g.skip(12));
            assert(f.subrange(8, 12)[at - 8] == f[at] && g.subrange(8, 12)[at - 8] == byte);
        } else {
            assert(q =~= payload.update(at - 12, byte)) by {
                assert(g.skip(12) =~= f.skip(12).update(at - 12, byte));
            }
            assert(payload[at - 12] == f[at]) by {
                assert(f.skip(12)[at - 12] == f[at]);
            }
            the_checksum_sees_a_changed_byte(payload, at - 12, byte);
            assert(f.subrange(8, 12) =~= g.subrange(8, 12));
            lemma_byte_values();
            lemma_le_value_of_bytes(crc32c_of(payload) as nat, 4);
            lemma_le_value_of_bytes(crc32c_of(q) as nat, 4);
        }
    }
}

/// A proper beginning of a frame is no frame.
pub proof fn a_cut_frame_is_no_frame(magic: u32, payload: Seq<u8>, keep: int, q: Seq<u8>)
    requires
        payload.len() <= u32::MAX,
        q.len() <= u32::MAX,
        0 <= keep < frame(magic, payload).len(),
    ensures
        frame(magic, payload).take(keep) != frame(magic, q),
{
    let f = frame(magic, payload);
    lemma_frame_len(magic, payload);
    lemma_frame_len(magic, q);
    if f.take(keep) == frame(magic, q) {
        assert(f.take(keep).subrange(4, 8) =~= f.subrange(4, 8));
        lemma_byte_values();
        lemma_le_value_of_bytes(payload.len(), 4);
        lemma_le_value_of_bytes(q.len(), 4);
    }
}

/// Puts the header in front of `payload`.
pub fn seal_frame(magic: u32, payload: &[u8]) -> (bytes: Vec<u8>)
    requires
        payload@.len() <= u32::MAX,
    ensures
        bytes@ == frame(magic, payload@),
{
    let mut bytes: Vec<u8> = Vec::new();
    put_le(&mut bytes, magic as u64, 4);
    put_le(&mut bytes, payload.len() as u64, 4);
    let crc: u32 = crc32c(payload);
    put_le(&mut bytes, crc as u64, 4);
    bytes.extend_from_slice(payload);
    bytes
}

/// The payload of a frame with this magic, if `bytes` is exactly one.
pub fn open_frame(magic: u32, bytes: &[u8]) -> (result: Result<&[u8], DecodeError>)
    ensures
        match result {
            Ok(payload) => payload@.len() <= u32::MAX && bytes@ == frame(magic, payload@),
            Err(_) => forall|p: Seq<u8>|
                p.len() <= u32::MAX ==> #[trigger] frame(magic, p) != bytes@,
        },
{
    proof {
        assert forall|p: Seq<u8>| p.len() <= u32::MAX && #[trigger] frame(magic, p) == bytes@ implies {
            &&& bytes@.len() == 12 + p.len()
            &&& le_value(bytes@.take(4)) == magic
            &&& le_value(bytes@.subrange(4, 8)) == p.len()
            &&& le_value(bytes@.subrange(8, 12)) == crc32c_of(p)
            &&& bytes@.skip(12) == p
        } by {
            lemma_frame_len(magic, p);
            lemma_byte_values();
            lemma_le_value_of_bytes(magic as nat, 4);
            lemma_le_value_of_bytes(p.len(), 4);
            lemma_le_value_of_bytes(crc32c_of(p) as nat, 4);
        }
    }
    if bytes.len() < 12 {
        return Err(DecodeError);
    }
    let head: &[u8] = vstd::slice::slice_subrange(bytes, 0, 4);
    let length: &[u8] = vstd::slice::slice_subrange(bytes, 4, 8);
    let check: &[u8] = vstd::slice::slice_subrange(bytes, 8, 12);
    let payload: &[u8] = vstd::slice::slice_subrange(bytes, 12, bytes.len());
    if get_le(head) != magic as u64 {
        return Err(DecodeError);
    }
    if get_le(length) != payload.len() as u64 {
        return Err(DecodeError);
    }
    if get_le(check) != crc32c(payload) as u64 {
        return Err(DecodeError);
    }
    proof {
        lemma_le_bytes_of_value(head@);
        lemma_le_bytes_of_value(length@);
        lemma_le_bytes_of_value(check@);
        lemma_byte_values();
    }
    Ok(payload)
}

// ---------------------------------------------------------------------------
// Field-by-field writer and reader
// ---------------------------------------------------------------------------

/// Appends fields to a payload.
pub struct Enc {
    out: Vec<u8>,
}

impl View for Enc {
    type V = Seq<u8>;

    closed spec fn view(&self) -> Seq<u8> {
        self.out@
    }
}

impl Enc {
    pub fn new() -> (e: Enc)
        ensures
            e@ == Seq::<u8>::empty(),
    {
        Enc { out: Vec::new() }
    }

    pub fn u8(&mut self, value: u8)
        ensures
            final(self)@ == old(self)@ + seq![value],
    {
        self.out.push(value);
    }

    pub fn u16(&mut self, value: u16)
        ensures
            final(self)@ == old(self)@ + le16(value),
    {
        proof {
            reveal(le16);
        }
        put_le(&mut self.out, value as u64, 2);
    }

    pub fn u32(&mut self, value: u32)
        ensures
            final(self)@ == old(self)@ + le32(value),
    {
        proof {
            reveal(le32);
        }
        put_le(&mut self.out, value as u64, 4);
    }

    pub fn u64(&mut self, value: u64)
        ensures
            final(self)@ == old(self)@ + le64(value),
    {
        proof {
            reveal(le64);
        }
        put_le(&mut self.out, value, 8);
    }

    pub fn bytes(&mut self, value: &[u8])
        ensures
            final(self)@ == old(self)@ + value@,
    {
        self.out.extend_from_slice(value);
    }

    pub fn finish(self) -> (payload: Vec<u8>)
        ensures
            payload@ == self@,
    {
        self.out
    }
}

/// Takes fields off the front of a payload.
pub struct Dec<'a> {
    bytes: &'a [u8],
    at: usize,
}

impl<'a> View for Dec<'a> {
    type V = Seq<u8>;

    /// The bytes not taken yet.
    closed spec fn view(&self) -> Seq<u8> {
        self.bytes@.skip(self.at as int)
    }
}

impl<'a> Dec<'a> {
    /// The read position never passes the end.
    #[verifier::type_invariant]
    closed spec fn inv(self) -> bool {
        self.at <= self.bytes@.len()
    }

    pub fn new(bytes: &'a [u8]) -> (d: Dec<'a>)
        ensures
            d@ == bytes@,
    {
        Dec { bytes, at: 0 }
    }

    /// Takes `len` bytes, if that many are left.
    pub fn bytes(&mut self, len: usize) -> (result: Result<&'a [u8], DecodeError>)
        ensures
            match result {
                Ok(taken) => {
                    &&& taken@.len() == len
                    &&& old(self)@ == taken@ + final(self)@
                },
                Err(_) => old(self)@.len() < len && final(self)@ == old(self)@,
            },
    {
        proof {
            use_type_invariant(&*self);
        }
        if self.bytes.len() - self.at < len {
            return Err(DecodeError);
        }
        let end: usize = self.at + len;
        let taken: &'a [u8] = vstd::slice::slice_subrange(self.bytes, self.at, end);
        self.at = end;
        Ok(taken)
    }

    pub fn u8(&mut self) -> (result: Result<u8, DecodeError>)
        ensures
            match result {
                Ok(v) => old(self)@ == seq![v] + final(self)@,
                Err(_) => old(self)@.len() < 1 && final(self)@ == old(self)@,
            },
    {
        let taken: &[u8] = self.bytes(1)?;
        Ok(taken[0])
    }

    pub fn u16(&mut self) -> (result: Result<u16, DecodeError>)
        ensures
            match result {
                Ok(v) => old(self)@ == le16(v) + final(self)@,
                Err(_) => old(self)@.len() < 2 && final(self)@ == old(self)@,
            },
    {
        let taken: &[u8] = self.bytes(2)?;
        proof {
            reveal(le16);
            lemma_le_bytes_of_value(taken@);
            lemma_byte_values();
        }
        Ok(get_le(taken) as u16)
    }

    pub fn u32(&mut self) -> (result: Result<u32, DecodeError>)
        ensures
            match result {
                Ok(v) => old(self)@ == le32(v) + final(self)@,
                Err(_) => old(self)@.len() < 4 && final(self)@ == old(self)@,
            },
    {
        let taken: &[u8] = self.bytes(4)?;
        proof {
            reveal(le32);
            lemma_le_bytes_of_value(taken@);
            lemma_byte_values();
        }
        Ok(get_le(taken) as u32)
    }

    pub fn u64(&mut self) -> (result: Result<u64, DecodeError>)
        ensures
            match result {
                Ok(v) => old(self)@ == le64(v) + final(self)@,
                Err(_) => old(self)@.len() < 8 && final(self)@ == old(self)@,
            },
    {
        let taken: &[u8] = self.bytes(8)?;
        proof {
            reveal(le64);
            lemma_le_bytes_of_value(taken@);
        }
        Ok(get_le(taken))
    }

    /// Accepts only if nothing is left.
    pub fn finish(self) -> (result: Result<(), DecodeError>)
        ensures
            result is Ok <==> self@.len() == 0,
    {
        proof {
            use_type_invariant(&self);
        }
        if self.at == self.bytes.len() {
            Ok(())
        } else {
            Err(DecodeError)
        }
    }
}

} // verus!
