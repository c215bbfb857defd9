//! Bit-level reading of PFR1 font data.
//!
//! The reader is modelled by the byte sequence it reads and a *bit cursor*:
//! the number of bits of that sequence already consumed. Byte reads first
//! round the cursor up to the next byte boundary.
use vstd::prelude::*;
use vstd::slice::slice_to_vec;
use crate::text::{string_from_utf8_lossy, utf8_lossy};
use vstd::arithmetic::power2::{pow2, lemma2_to64, lemma_pow2_pos, lemma_pow2_unfold};
use vstd::arithmetic::div_mod::{lemma_add_mod_noop, lemma_mul_mod_noop_left, lemma_mod_bound};
use vstd::arithmetic::mul::lemma_mul_is_associative;
use vstd::bits::{lemma_u64_shl_is_mul, lemma_u32_shl_is_mul};

verus! {

/// Bit `i` of `data`, counting from the most significant bit of `data[0]`.
pub open spec fn bit_at(data: Seq<u8>, i: int) -> nat {
    (((data[i / 8] as u32) >> ((7 - i % 8) as u32)) & 1u32) as nat
}

/// The unsigned value of the `k` bits of `data` that start at bit `start`,
/// most significant bit first.
pub open spec fn bits_value(data: Seq<u8>, start: int, k: nat) -> nat
    decreases k,
{
    if k == 0 {
        0
    } else {
        2 * bits_value(data, start, (k - 1) as nat) + bit_at(data, start + k - 1)
    }
}

/// Index of the byte that holds the bit at `cursor`, once the cursor is
/// rounded up to a byte boundary.
pub open spec fn byte_index(cursor: int) -> int {
    (cursor + 7) / 8
}

/// The cursor rounded up to the next byte boundary.
pub open spec fn aligned(cursor: int) -> int {
    byte_index(cursor) * 8
}

/// Number of bits of `data` left to read from `cursor`.
pub open spec fn available_bits(data: Seq<u8>, cursor: int) -> int {
    if cursor < data.len() * 8 {
        data.len() * 8 - cursor
    } else {
        0
    }
}

pub open spec fn min_int(a: int, b: int) -> int {
    if a <= b {
        a
    } else {
        b
    }
}

/// Reading `count` bits: as many bits as are left, at most `count`, most
/// significant first, kept modulo 2^32; and the cursor after them.
pub open spec fn read_bits_spec(data: Seq<u8>, cursor: int, count: u32) -> (u32, int) {
    let k = min_int(count as int, available_bits(data, cursor));
    ((bits_value(data, cursor, k as nat) % 0x1_0000_0000) as u32, cursor + k)
}

/// Reading one byte: align, then the byte there (0 past the end).
pub open spec fn read_u8_spec(data: Seq<u8>, cursor: int) -> (u8, int) {
    let p = byte_index(cursor);
    if p >= data.len() {
        (0, p * 8)
    } else {
        (data[p], (p + 1) * 8)
    }
}

/// Reading two bytes as a big-endian value.
pub open spec fn read_u16_spec(data: Seq<u8>, cursor: int) -> (u16, int) {
    let (hi, c1) = read_u8_spec(data, cursor);
    let (lo, c2) = read_u8_spec(data, c1);
    ((hi as int * 0x100 + lo as int) as u16, c2)
}

/// Reading three bytes as a big-endian value.
pub open spec fn read_u24_spec(data: Seq<u8>, cursor: int) -> (u32, int) {
    let (b0, c1) = read_u8_spec(data, cursor);
    let (b1, c2) = read_u8_spec(data, c1);
    let (b2, c3) = read_u8_spec(data, c2);
    ((b0 as int * 0x1_0000 + b1 as int * 0x100 + b2 as int) as u32, c3)
}

/// Reading four bytes as a big-endian value.
pub open spec fn read_u32_spec(data: Seq<u8>, cursor: int) -> (u32, int) {
    let (hi, c1) = read_u16_spec(data, cursor);
    let (lo, c2) = read_u16_spec(data, c1);
    ((hi as int * 0x1_0000 + lo as int) as u32, c2)
}

/// The two's complement reading of the `width`-bit unsigned value `v`.
pub open spec fn sign_extend(v: int, width: nat) -> int {
    if width > 0 && v >= pow2((width - 1) as nat) {
        v - pow2(width)
    } else {
        v
    }
}

/// Reading three bytes as a 24-bit two's complement value.
pub open spec fn read_i24_spec(data: Seq<u8>, cursor: int) -> (i32, int) {
    let (v, c1) = read_u24_spec(data, cursor);
    (sign_extend(v as int, 24) as i32, c1)
}

/// Byte at which a byte-level read of `count` bytes ends: the aligned
/// position plus `count`, clamped to the end of the data.
pub open spec fn bytes_end(data: Seq<u8>, cursor: int, count: int) -> int {
    min_int(byte_index(cursor) + count, data.len() as int)
}

/// Reading `count` more bits after `m` bits extends the value by shifting it
/// left by `count` and adding the new bits.
pub proof fn lemma_bits_value_concat(data: Seq<u8>, start: int, m: nat, n: nat)
    ensures
        bits_value(data, start, m + n) == bits_value(data, start, m) * pow2(n) + bits_value(
            data,
            start + m,
            n,
        ),
    decreases n,
{
    reveal(pow2);
    if n > 0 {
        lemma_bits_value_concat(data, start, m, (n - 1) as nat);
        assert(m + n - 1 == m + (n - 1) as nat);
        assert(bits_value(data, start, m + n) == 2 * bits_value(data, start, (m + n - 1) as nat)
            + bit_at(data, start + m + n - 1));
        assert(bits_value(data, start + m, n) == 2 * bits_value(data, start + m, (n - 1) as nat)
            + bit_at(data, start + m + n - 1));
        let a = bits_value(data, start, m) as int;
        let q = pow2((n - 1) as nat) as int;
        assert(2 * (a * q) == a * (2 * q)) by (nonlinear_arith);
        lemma_pow2_unfold(n);
    } else {
        lemma2_to64();
    }
}

/// A read of `count <= 32` bits gives a value below 2^count.
pub proof fn lemma_read_bits_bound(data: Seq<u8>, cursor: int, count: u32)
    requires
        count <= 32,
    ensures
        read_bits_spec(data, cursor, count).0 < pow2(count as nat),
        read_bits_spec(data, cursor, count).0 as int == bits_value(
            data,
            cursor,
            min_int(count as int, available_bits(data, cursor)) as nat,
        ),
{
    let k = min_int(count as int, available_bits(data, cursor));
    lemma2_to64();
    lemma_bits_value_bound(data, cursor, k as nat);
    if k < count {
        vstd::arithmetic::power2::lemma_pow2_strictly_increases(k as nat, count as nat);
    }
    vstd::arithmetic::div_mod::lemma_small_mod(bits_value(data, cursor, k as nat), 0x1_0000_0000);
}

/// Reading `a` bits and then `b` bits gives the same cursor as reading
/// `a + b` bits at once, and the single value is the first one shifted left
/// by the number of bits the second read took, plus the second one.
pub proof fn lemma_split_read(data: Seq<u8>, cursor: int, a: u32, b: u32)
    requires
        a + b <= 32,
    ensures
        ({
            let (v1, c1) = read_bits_spec(data, cursor, a);
            let (v2, c2) = read_bits_spec(data, c1, b);
            let (v, c) = read_bits_spec(data, cursor, (a + b) as u32);
            &&& c == c2
            &&& c1 <= c2
            &&& v as int == v1 as int * pow2((c2 - c1) as nat) + v2 as int
        }),
{
    let (v1, c1) = read_bits_spec(data, cursor, a);
    let k1 = c1 - cursor;
    let k2 = read_bits_spec(data, c1, b).1 - c1;
    lemma_read_bits_bound(data, cursor, a);
    lemma_read_bits_bound(data, c1, b);
    lemma_read_bits_bound(data, cursor, (a + b) as u32);
    assert(min_int((a + b) as int, available_bits(data, cursor)) == k1 + k2);
    lemma_bits_value_concat(data, cursor, k1 as nat, k2 as nat);
}

/// At a byte boundary, reading 8 bits reads the same byte as `read_u8`.
pub proof fn lemma_aligned_byte_read(data: Seq<u8>, p: int)
    requires
        0 <= p < data.len(),
    ensures
        read_bits_spec(data, p * 8, 8).0 == read_u8_spec(data, p * 8).0 as u32,
        read_bits_spec(data, p * 8, 8).1 == read_u8_spec(data, p * 8).1,
{
    assert((p * 8 + 7) / 8 == p);
    lemma_bits_within_byte(data, p, 0, 8);
    let b = data[p] as u32;
    assert((b >> 0u32) & (0xffu32 >> 0u32) == b) by (bit_vector)
        requires
            b < 256,
    ;
    lemma_read_bits_bound(data, p * 8, 8);
}

/// A bit is 0 or 1.
pub proof fn lemma_bit_at_bound(data: Seq<u8>, i: int)
    ensures
        bit_at(data, i) <= 1,
{
    let x = data[i / 8] as u32;
    let sh = (7 - i % 8) as u32;
    assert((x >> sh) & 1u32 <= 1) by (bit_vector);
}

/// `k` bits hold a value below 2^k.
pub proof fn lemma_bits_value_bound(data: Seq<u8>, start: int, k: nat)
    ensures
        bits_value(data, start, k) < pow2(k),
    decreases k,
{
    reveal(pow2);
    if k > 0 {
        lemma_bits_value_bound(data, start, (k - 1) as nat);
        lemma_bit_at_bound(data, start + k - 1);
        assert(bits_value(data, start, k) == 2 * bits_value(data, start, (k - 1) as nat) + bit_at(
            data,
            start + k - 1,
        ));
        lemma_pow2_unfold(k);
    } else {
        lemma2_to64();
    }
}

/// The `t` bits of byte `p` that start `j0` bits into it, read as a shifted
/// and masked byte.
proof fn lemma_bits_within_byte(data: Seq<u8>, p: int, j0: int, t: int)
    requires
        0 <= p < data.len(),
        0 <= j0,
        0 <= t,
        j0 + t <= 8,
    ensures
        bits_value(data, p * 8 + j0, t as nat) == (((data[p] as u32) >> ((8 - j0 - t) as u32))
            & (0xffu32 >> ((8 - t) as u32))) as nat,
    decreases t,
{
    let b = data[p] as u32;
    if t == 0 {
        let s = (8 - j0) as u32;
        assert((b >> s) & (0xffu32 >> 8u32) == 0) by (bit_vector);
    } else {
        lemma_bits_within_byte(data, p, j0, t - 1);
        let i = p * 8 + j0 + t - 1;
        assert(i / 8 == p && i % 8 == j0 + t - 1);
        let s = (8 - j0 - t) as u32;
        let s1 = (8 - j0 - (t - 1)) as u32;
        let tt = t as u32;
        let mprev = (8 - (t - 1)) as u32;
        let mcur = (8 - t) as u32;
        assert(((b >> s1) & (0xffu32 >> mprev)) * 2 + ((b >> s) & 1u32) == (b >> s) & (0xffu32
            >> mcur)) by (bit_vector)
            requires
                s1 == s + 1,
                mprev == mcur + 1,
                s + tt <= 8,
                mcur + tt == 8,
                tt >= 1,
                b < 256,
        ;
        assert((7 - i % 8) as u32 == s);
        assert(bits_value(data, p * 8 + j0, t as nat) == 2 * bits_value(
            data,
            p * 8 + j0,
            (t - 1) as nat,
        ) + bit_at(data, i));
    }
}

/// Appending `t` new low bits `b` to a 32-bit accumulator `r`.
proof fn lemma_shift_in(r: u32, t: u32, b: u32)
    requires
        1 <= t <= 8,
        b < (1u32 << t),
    ensures
        ((r << t) | b) as int == (r as int * pow2(t as nat) + b as int) % 0x1_0000_0000,
{
    assert(((r << t) | b) as u64 == ((r as u64) * (1u64 << (t as u64)) + b as u64)
        % 0x1_0000_0000) by (bit_vector)
        requires
            1 <= t <= 8,
            b < (1u32 << t),
    ;
    lemma2_to64();
    lemma_u64_shl_is_mul(1u64, t as u64);
}

/// Keeping only the low 32 bits before or after appending bits gives the
/// same result.
proof fn lemma_mod_shift_in(v: int, t: nat, b: int)
    requires
        v >= 0,
    ensures
        ((v % 0x1_0000_0000) * pow2(t) + b) % 0x1_0000_0000 == (v * pow2(t) + b) % 0x1_0000_0000,
{
    let m = 0x1_0000_0000int;
    lemma_mul_mod_noop_left(v, pow2(t) as int, m);
    lemma_add_mod_noop((v % m) * pow2(t), b, m);
    lemma_add_mod_noop(v * pow2(t), b, m);
}

/// The cursor and the saved cursor of a reader.
pub struct ReaderState {
    pub cursor: int,
    pub saved: Option<int>,
}

/// A method call on a reader, for laws over sequences of calls.
#[derive(Debug, Clone, Copy, PartialEq, Eq, Structural)]
pub enum ReaderOp {
    ReadBits(u32),
    ReadBitsSigned(u32),
    ReadBit,
    PeekBits(u32),
    ReadU8,
    ReadI8,
    ReadU16,
    ReadI16,
    ReadU24,
    ReadI24,
    ReadU32,
    ReadBytes(usize),
    ReadString(usize),
    Skip(usize),
    Align,
    SetPosition(usize),
    Save,
    Restore,
}

/// The cursor after a call other than `Save` and `Restore`.
pub open spec fn op_cursor(data: Seq<u8>, cursor: int, op: ReaderOp) -> int {
    match op {
        ReaderOp::ReadBits(n) => read_bits_spec(data, cursor, n).1,
        ReaderOp::ReadBitsSigned(n) => read_bits_spec(data, cursor, n).1,
        ReaderOp::ReadBit => read_bits_spec(data, cursor, 1).1,
        ReaderOp::PeekBits(_) => cursor,
        ReaderOp::ReadU8 => read_u8_spec(data, cursor).1,
        ReaderOp::ReadI8 => read_u8_spec(data, cursor).1,
        ReaderOp::ReadU16 => read_u16_spec(data, cursor).1,
        ReaderOp::ReadI16 => read_u16_spec(data, cursor).1,
        ReaderOp::ReadU24 => read_u24_spec(data, cursor).1,
        ReaderOp::ReadI24 => read_u24_spec(data, cursor).1,
        ReaderOp::ReadU32 => read_u32_spec(data, cursor).1,
        ReaderOp::ReadBytes(n) => bytes_end(data, cursor, n as int) * 8,
        ReaderOp::ReadString(n) => bytes_end(data, cursor, n as int) * 8,
        ReaderOp::Skip(n) => bytes_end(data, cursor, n as int) * 8,
        ReaderOp::Align => aligned(cursor),
        ReaderOp::SetPosition(p) => p * 8,
        ReaderOp::Save => cursor,
        ReaderOp::Restore => cursor,
    }
}

/// The reader's state after one call: `Save` records the cursor, `Restore`
/// goes back to the recorded one (if any), every other call moves the cursor
/// and keeps the recorded one.
pub open spec fn reader_step(data: Seq<u8>, s: ReaderState, op: ReaderOp) -> ReaderState {
    match op {
        ReaderOp::Save => ReaderState { cursor: s.cursor, saved: Some(s.cursor) },
        ReaderOp::Restore => ReaderState {
            cursor: match s.saved {
                Some(c) => c,
                None => s.cursor,
            },
            saved: s.saved,
        },
        _ => ReaderState { cursor: op_cursor(data, s.cursor, op), saved: s.saved },
    }
}

/// The reader's state after a sequence of calls.
pub open spec fn reader_run(data: Seq<u8>, s: ReaderState, ops: Seq<ReaderOp>) -> ReaderState
    decreases ops.len(),
{
    if ops.len() == 0 {
        s
    } else {
        reader_step(data, reader_run(data, s, ops.drop_last()), ops.last())
    }
}

/// Calls other than `Save` keep the recorded cursor.
pub proof fn lemma_run_keeps_saved(data: Seq<u8>, s: ReaderState, ops: Seq<ReaderOp>)
    requires
        forall|i: int| 0 <= i < ops.len() ==> #[trigger] ops[i] != ReaderOp::Save,
    ensures
        reader_run(data, s, ops).saved == s.saved,
    decreases ops.len(),
{
    if ops.len() > 0 {
        lemma_run_keeps_saved(data, s, ops.drop_last());
        assert(ops.last() == ops[ops.len() - 1]);
    }
}

/// After `save_position`, any calls other than `save_position` and then
/// `restore_position` bring the reader back to the saved cursor (so every
/// later read returns what it would have returned there); without a saved
/// cursor, `restore_position` changes nothing.
pub proof fn lemma_save_restore(data: Seq<u8>, s: ReaderState, ops: Seq<ReaderOp>)
    requires
        forall|i: int| 0 <= i < ops.len() ==> #[trigger] ops[i] != ReaderOp::Save,
    ensures
        reader_run(data, reader_step(data, s, ReaderOp::Save), ops.push(ReaderOp::Restore))
            == reader_step(data, s, ReaderOp::Save),
        s.saved is None ==> reader_run(data, s, ops.push(ReaderOp::Restore)) == reader_run(
            data,
            s,
            ops,
        ),
{
    let saved = reader_step(data, s, ReaderOp::Save);
    lemma_run_keeps_saved(data, saved, ops);
    lemma_run_keeps_saved(data, s, ops);
    assert(ops.push(ReaderOp::Restore).drop_last() =~= ops);
}

/// Bit-level reader over a byte slice (PFR1 data is not byte aligned).
#[derive(Debug)]
pub struct PfrBitReader<'a> {
    data: &'a [u8],
    pos: usize,
    bit_buffer: u32,
    bits_left: u32,
    saved_pos: Option<usize>,
    saved_bit_buffer: Option<u32>,
    saved_bits_left: Option<u32>,
}

impl<'a> PfrBitReader<'a> {
    /// The bytes being read.
    pub closed spec fn bytes(&self) -> Seq<u8> {
        self.data@
    }

    /// Number of bits consumed so far.
    pub closed spec fn cursor(&self) -> int {
        self.pos * 8 - self.bits_left
    }

    /// The cursor recorded by the last `save_position`, if any.
    pub closed spec fn saved(&self) -> Option<int> {
        match self.saved_pos {
            Some(p) => Some(p * 8 - self.saved_bits_left.unwrap()),
            None => None,
        }
    }

    spec fn state_ok(data: Seq<u8>, pos: usize, buffer: u32, left: u32) -> bool {
        &&& left < 8
        &&& left > 0 ==> 1 <= pos <= data.len() && buffer == data[pos - 1] as u32
    }

    /// The cursor and the saved cursor.
    pub open spec fn state(&self) -> ReaderState {
        ReaderState { cursor: self.cursor(), saved: self.saved() }
    }

    /// The reader's internal state is consistent with its model.
    pub closed spec fn wf(&self) -> bool {
        &&& Self::state_ok(self.data@, self.pos, self.bit_buffer, self.bits_left)
        &&& self.saved_pos.is_some() == self.saved_bit_buffer.is_some()
        &&& self.saved_pos.is_some() == self.saved_bits_left.is_some()
        &&& self.saved_pos.is_some() ==> Self::state_ok(
            self.data@,
            self.saved_pos.unwrap(),
            self.saved_bit_buffer.unwrap(),
            self.saved_bits_left.unwrap(),
        )
    }

    proof fn lemma_pos(&self)
        requires
            self.wf(),
        ensures
            self.pos == byte_index(self.cursor()),
            self.cursor() >= 0,
            self.cursor() <= self.pos * 8,
            self.bits_left == 0 <==> self.cursor() == self.pos * 8,
            self.bits_left > 0 ==> self.pos <= self.data@.len(),
    {
    }

    pub fn new(data: &'a [u8]) -> (r: Self)
        ensures
            r.wf(),
            r.bytes() == data@,
            r.cursor() == 0,
            r.saved() is None,
    {
        Self {
            data,
            pos: 0,
            bit_buffer: 0,
            bits_left: 0,
            saved_pos: None,
            saved_bit_buffer: None,
            saved_bits_left: None,
        }
    }
}


impl<'a> PfrBitReader<'a> {
    /// A reader whose first byte read is `data[offset]`.
    pub fn from_offset(data: &'a [u8], offset: usize) -> (r: Self)
        ensures
            r.wf(),
            r.bytes() == data@,
            r.cursor() == offset * 8,
            r.saved() is None,
    {
        Self {
            data,
            pos: offset,
            bit_buffer: 0,
            bits_left: 0,
            saved_pos: None,
            saved_bit_buffer: None,
            saved_bits_left: None,
        }
    }

    /// Index of the next byte to load: the cursor rounded up to a byte.
    pub fn position(&self) -> (p: usize)
        requires
            self.wf(),
        ensures
            p == byte_index(self.cursor()),
    {
        proof { self.lemma_pos(); }
        self.pos
    }

    /// Moves to byte `pos`, dropping any partly read byte.
    pub fn set_position(&mut self, pos: usize)
        requires
            old(self).wf(),
        ensures
            final(self).wf(),
            final(self).bytes() == old(self).bytes(),
            final(self).saved() == old(self).saved(),
            final(self).state() == reader_step(old(self).bytes(), old(self).state(), ReaderOp::SetPosition(pos)),
            final(self).cursor() == pos * 8,
    {
        self.pos = pos;
        self.bit_buffer = 0;
        self.bits_left = 0;
    }

    /// Whole bytes left from the current byte position (0 past the end).
    pub fn remaining(&self) -> (n: usize)
        requires
            self.wf(),
        ensures
            n == (if byte_index(self.cursor()) >= self.bytes().len() {
                0
            } else {
                self.bytes().len() - byte_index(self.cursor())
            }),
    {
        proof { self.lemma_pos(); }
        if self.pos >= self.data.len() {
            0
        } else {
            self.data.len() - self.pos
        }
    }

    /// True when no bit is left to read.
    pub fn is_eof(&self) -> (b: bool)
        requires
            self.wf(),
        ensures
            b == (self.cursor() >= self.bytes().len() * 8),
    {
        proof { self.lemma_pos(); }
        self.pos >= self.data.len() && self.bits_left == 0
    }

    /// The whole byte slice being read.
    pub fn data_slice(&self) -> (d: &'a [u8])
        ensures
            d@ == self.bytes(),
    {
        self.data
    }

    /// Records the current position, to come back to with `restore_position`.
    pub fn save_position(&mut self)
        requires
            old(self).wf(),
        ensures
            final(self).wf(),
            final(self).bytes() == old(self).bytes(),
            final(self).cursor() == old(self).cursor(),
            final(self).saved() == Some(old(self).cursor()),
            final(self).state() == reader_step(old(self).bytes(), old(self).state(), ReaderOp::Save),
    {
        self.saved_pos = Some(self.pos);
        self.saved_bit_buffer = Some(self.bit_buffer);
        self.saved_bits_left = Some(self.bits_left);
    }

    /// Goes back to the position recorded by the last `save_position`;
    /// does nothing if none was recorded.
    pub fn restore_position(&mut self)
        requires
            old(self).wf(),
        ensures
            final(self).wf(),
            final(self).bytes() == old(self).bytes(),
            final(self).saved() == old(self).saved(),
            final(self).state() == reader_step(old(self).bytes(), old(self).state(), ReaderOp::Restore),
            final(self).cursor() == (match old(self).saved() {
                Some(c) => c,
                None => old(self).cursor(),
            }),
    {
        if let Some(pos) = self.saved_pos {
            self.pos = pos;
            self.bit_buffer = self.saved_bit_buffer.unwrap_or(0);
            self.bits_left = self.saved_bits_left.unwrap_or(0);
        }
    }

    /// Drops the rest of a partly read byte.
    pub fn align_to_byte(&mut self)
        requires
            old(self).wf(),
        ensures
            final(self).wf(),
            final(self).bytes() == old(self).bytes(),
            final(self).saved() == old(self).saved(),
            final(self).state() == reader_step(old(self).bytes(), old(self).state(), ReaderOp::Align),
            final(self).cursor() == aligned(old(self).cursor()),
    {
        proof { self.lemma_pos(); }
        self.bit_buffer = 0;
        self.bits_left = 0;
    }

    /// Reads one byte at the next byte boundary; 0 past the end.
    pub fn read_u8(&mut self) -> (v: u8)
        requires
            old(self).wf(),
        ensures
            final(self).wf(),
            final(self).bytes() == old(self).bytes(),
            final(self).saved() == old(self).saved(),
            final(self).state() == reader_step(old(self).bytes(), old(self).state(), ReaderOp::ReadU8),
            (v, final(self).cursor()) == read_u8_spec(old(self).bytes(), old(self).cursor()),
    {
        self.align_to_byte();
        if self.pos >= self.data.len() {
            return 0;
        }
        let val = self.data[self.pos];
        self.pos += 1;
        val
    }
}


impl<'a> PfrBitReader<'a> {
    /// Reads `count` bits as an unsigned value, most significant bit first.
    /// Stops early at the end of the data, returning the bits read so far;
    /// beyond 32 bits only the low 32 bits of the value are kept.
    pub fn read_bits(&mut self, count: u32) -> (v: u32)
        requires
            old(self).wf(),
        ensures
            final(self).wf(),
            final(self).bytes() == old(self).bytes(),
            final(self).saved() == old(self).saved(),
            final(self).state() == reader_step(old(self).bytes(), old(self).state(), ReaderOp::ReadBits(count)),
            (v, final(self).cursor()) == read_bits_spec(old(self).bytes(), old(self).cursor(), count),
    {
        if count == 0 {
            proof {
                reveal_with_fuel(bits_value, 1);
            }
            return 0;
        }
        let ghost data = self.data@;
        let ghost c0 = self.cursor();
        proof {
            self.lemma_pos();
        }
        let mut result: u32 = 0;
        let mut remaining = count;

        // The loop also stops once no byte is left to load.
        while remaining > 0 && (self.bits_left > 0 || self.pos < self.data.len())
            invariant
                self.wf(),
                self.data@ == data,
                self.saved() == old(self).saved(),
                c0 == old(self).cursor(),
                c0 >= 0,
                remaining <= count,
                self.cursor() == c0 + (count - remaining),
                count - remaining <= available_bits(data, c0),
                result as int == bits_value(data, c0, (count - remaining) as nat) % 0x1_0000_0000,
            decreases remaining,
        {
            proof {
                self.lemma_pos();
            }
            if self.bits_left == 0 {
                self.bit_buffer = self.data[self.pos] as u32;
                self.pos += 1;
                self.bits_left = 8;
            }
            let take = if remaining < self.bits_left {
                remaining
            } else {
                self.bits_left
            };
            let shift = self.bits_left - take;
            assert(1u32 << take >= 1) by (bit_vector)
                requires
                    take <= 8,
            ;
            let mask = ((1u32 << take) - 1) << shift;
            let bits = (self.bit_buffer & mask) >> shift;
            proof {
                let b = self.bit_buffer;
                let p = self.pos - 1;
                let j0 = 8 - self.bits_left;
                assert(p * 8 + j0 == self.pos * 8 - self.bits_left);
                lemma_bits_within_byte(data, p, j0, take as int);
                let mcur = (8 - take) as u32;
                assert(bits == (b >> shift) & (0xffu32 >> mcur) && bits < (1u32 << take))
                    by (bit_vector)
                    requires
                        bits == (b & (((1u32 << take) - 1) as u32) << shift) >> shift,
                        b < 256,
                        take >= 1,
                        shift + take <= 8,
                        mcur + take == 8,
                ;
                let consumed = (count - remaining) as nat;
                lemma_bits_value_concat(data, c0, consumed, take as nat);
                lemma_shift_in(result, take, bits);
                lemma_mod_shift_in(bits_value(data, c0, consumed) as int, take as nat, bits as int);
                assert(c0 + consumed == p * 8 + j0);
            }
            result = (result << take) | bits;
            self.bits_left -= take;
            remaining -= take;
        }
        proof {
            self.lemma_pos();
        }
        result
    }
}


impl<'a> PfrBitReader<'a> {
    pub fn read_i8(&mut self) -> (v: i8)
        requires
            old(self).wf(),
        ensures
            final(self).wf(),
            final(self).bytes() == old(self).bytes(),
            final(self).saved() == old(self).saved(),
            final(self).state() == reader_step(old(self).bytes(), old(self).state(), ReaderOp::ReadI8),
            v as int == sign_extend(read_u8_spec(old(self).bytes(), old(self).cursor()).0 as int, 8),
            final(self).cursor() == read_u8_spec(old(self).bytes(), old(self).cursor()).1,
    {
        let b = self.read_u8();
        proof {
            lemma2_to64();
            assert((b as i8) as int == if b >= 128 { b - 256 } else { b as int }) by (bit_vector);
        }
        b as i8
    }

    /// Reads two bytes, big-endian.
    pub fn read_u16(&mut self) -> (v: u16)
        requires
            old(self).wf(),
        ensures
            final(self).wf(),
            final(self).bytes() == old(self).bytes(),
            final(self).saved() == old(self).saved(),
            final(self).state() == reader_step(old(self).bytes(), old(self).state(), ReaderOp::ReadU16),
            (v, final(self).cursor()) == read_u16_spec(old(self).bytes(), old(self).cursor()),
    {
        let hi = self.read_u8() as u16;
        let lo = self.read_u8() as u16;
        assert((hi << 8) | lo == hi * 256 + lo) by (bit_vector)
            requires
                hi < 256,
                lo < 256,
        ;
        (hi << 8) | lo
    }

    pub fn read_i16(&mut self) -> (v: i16)
        requires
            old(self).wf(),
        ensures
            final(self).wf(),
            final(self).bytes() == old(self).bytes(),
            final(self).saved() == old(self).saved(),
            final(self).state() == reader_step(old(self).bytes(), old(self).state(), ReaderOp::ReadI16),
            v as int == sign_extend(read_u16_spec(old(self).bytes(), old(self).cursor()).0 as int, 16),
            final(self).cursor() == read_u16_spec(old(self).bytes(), old(self).cursor()).1,
    {
        let w = self.read_u16();
        proof {
            lemma2_to64();
            assert((w as i16) as int == if w >= 0x8000 { w - 0x10000 } else { w as int })
                by (bit_vector);
        }
        w as i16
    }

    /// Reads three bytes, big-endian.
    pub fn read_u24(&mut self) -> (v: u32)
        requires
            old(self).wf(),
        ensures
            final(self).wf(),
            final(self).bytes() == old(self).bytes(),
            final(self).saved() == old(self).saved(),
            final(self).state() == reader_step(old(self).bytes(), old(self).state(), ReaderOp::ReadU24),
            (v, final(self).cursor()) == read_u24_spec(old(self).bytes(), old(self).cursor()),
    {
        let b0 = self.read_u8() as u32;
        let b1 = self.read_u8() as u32;
        let b2 = self.read_u8() as u32;
        assert((b0 << 16) | (b1 << 8) | b2 == b0 * 0x1_0000 + b1 * 0x100 + b2) by (bit_vector)
            requires
                b0 < 256,
                b1 < 256,
                b2 < 256,
        ;
        (b0 << 16) | (b1 << 8) | b2
    }

    /// Reads three bytes as a 24-bit two's complement value.
    pub fn read_i24(&mut self) -> (v: i32)
        requires
            old(self).wf(),
        ensures
            final(self).wf(),
            final(self).bytes() == old(self).bytes(),
            final(self).saved() == old(self).saved(),
            final(self).state() == reader_step(old(self).bytes(), old(self).state(), ReaderOp::ReadI24),
            v as int == sign_extend(read_u24_spec(old(self).bytes(), old(self).cursor()).0 as int, 24),
            (v, final(self).cursor()) == read_i24_spec(old(self).bytes(), old(self).cursor()),
    {
        let val = self.read_u24();
        proof {
            lemma2_to64();
            assert(val & 0x800000 != 0 <==> val >= 0x800000) by (bit_vector)
                requires
                    val < 0x1000000,
            ;
            assert(val >= 0x800000 ==> ((val | 0xFF000000) as i32) as int == val - 0x1000000)
                by (bit_vector)
                requires
                    val < 0x1000000,
            ;
            assert(val < 0x800000 ==> (val as i32) as int == val) by (bit_vector);
        }
        if val & 0x800000 != 0 {
            (val | 0xFF000000) as i32
        } else {
            val as i32
        }
    }

    /// Reads four bytes, big-endian.
    pub fn read_u32(&mut self) -> (v: u32)
        requires
            old(self).wf(),
        ensures
            final(self).wf(),
            final(self).bytes() == old(self).bytes(),
            final(self).saved() == old(self).saved(),
            final(self).state() == reader_step(old(self).bytes(), old(self).state(), ReaderOp::ReadU32),
            (v, final(self).cursor()) == read_u32_spec(old(self).bytes(), old(self).cursor()),
    {
        let hi = self.read_u16() as u32;
        let lo = self.read_u16() as u32;
        assert((hi << 16) | lo == hi * 0x1_0000 + lo) by (bit_vector)
            requires
                hi < 0x1_0000,
                lo < 0x1_0000,
        ;
        (hi << 16) | lo
    }

    /// Reads up to `count` bytes from the next byte boundary, fewer at the
    /// end of the data.
    pub fn read_bytes(&mut self, count: usize) -> (v: Vec<u8>)
        requires
            old(self).wf(),
            byte_index(old(self).cursor()) <= old(self).bytes().len(),
            byte_index(old(self).cursor()) + count <= usize::MAX,
        ensures
            final(self).wf(),
            final(self).bytes() == old(self).bytes(),
            final(self).saved() == old(self).saved(),
            final(self).state() == reader_step(old(self).bytes(), old(self).state(), ReaderOp::ReadBytes(count)),
            v@ == old(self).bytes().subrange(
                byte_index(old(self).cursor()),
                bytes_end(old(self).bytes(), old(self).cursor(), count as int),
            ),
            final(self).cursor() == bytes_end(old(self).bytes(), old(self).cursor(), count as int)
                * 8,
    {
        self.align_to_byte();
        let end = if self.pos + count < self.data.len() {
            self.pos + count
        } else {
            self.data.len()
        };
        let bytes = slice_to_vec(&self.data[self.pos..end]);
        self.pos = end;
        bytes
    }

    /// Reads up to `len` bytes and decodes them as UTF-8, replacing invalid
    /// sequences.
    pub fn read_string(&mut self, len: usize) -> (s: String)
        requires
            old(self).wf(),
            byte_index(old(self).cursor()) <= old(self).bytes().len(),
            byte_index(old(self).cursor()) + len <= usize::MAX,
        ensures
            final(self).wf(),
            final(self).bytes() == old(self).bytes(),
            final(self).saved() == old(self).saved(),
            final(self).state() == reader_step(old(self).bytes(), old(self).state(), ReaderOp::ReadString(len)),
            s@ == utf8_lossy(
                old(self).bytes().subrange(
                    byte_index(old(self).cursor()),
                    bytes_end(old(self).bytes(), old(self).cursor(), len as int),
                ),
            ),
            final(self).cursor() == bytes_end(old(self).bytes(), old(self).cursor(), len as int)
                * 8,
    {
        let bytes = self.read_bytes(len);
        string_from_utf8_lossy(bytes.as_slice())
    }
}


impl<'a> PfrBitReader<'a> {
    /// Reads `count` bits as a two's complement value, most significant bit
    /// first. With `count` 32 the top bit must be clear (the mask for the
    /// sign would overflow).
    pub fn read_bits_signed(&mut self, count: u32) -> (v: i32)
        requires
            old(self).wf(),
            count <= 32,
            count == 32 ==> read_bits_spec(old(self).bytes(), old(self).cursor(), count).0
                < 0x8000_0000,
        ensures
            final(self).wf(),
            final(self).bytes() == old(self).bytes(),
            final(self).saved() == old(self).saved(),
            final(self).state() == reader_step(old(self).bytes(), old(self).state(), ReaderOp::ReadBitsSigned(count)),
            v as int == sign_extend(
                read_bits_spec(old(self).bytes(), old(self).cursor(), count).0 as int,
                count as nat,
            ),
            final(self).cursor() == read_bits_spec(old(self).bytes(), old(self).cursor(), count).1,
    {
        let ghost k = min_int(count as int, available_bits(self.data@, self.cursor()));
        let val = self.read_bits(count);
        proof {
            lemma2_to64();
            lemma_bits_value_bound(self.data@, old(self).cursor(), k as nat);
            if k < count {
                vstd::arithmetic::power2::lemma_pow2_strictly_increases(k as nat, count as nat);
            }
            assert(pow2(count as nat) <= 0x1_0000_0000);
            vstd::arithmetic::div_mod::lemma_small_mod(
                bits_value(self.data@, old(self).cursor(), k as nat),
                0x1_0000_0000,
            );
            assert(val < pow2(count as nat));
            if 0 < count && count < 32 {
                let c1 = (count - 1) as u32;
                lemma_u32_shl_is_mul(1u32, c1);
                lemma_u32_shl_is_mul(1u32, count);
                lemma_pow2_unfold(count as nat);
                assert(val & (1u32 << c1) != 0 <==> val >= (1u32 << c1)) by (bit_vector)
                    requires
                        val < (1u32 << count),
                        c1 + 1 == count,
                        count < 32,
                ;
                assert(val >= (1u32 << c1) ==> ((val | !(((1u32 << count) - 1) as u32)) as i32) as int
                    == val - (1u32 << count)) by (bit_vector)
                    requires
                        val < (1u32 << count),
                        c1 + 1 == count,
                        count < 32,
                ;
                assert(val < (1u32 << c1) ==> (val as i32) as int == val) by (bit_vector)
                    requires
                        c1 < 31,
                ;
            } else if count == 32 {
                assert(val < 0x8000_0000 ==> val & (1u32 << 31u32) == 0) by (bit_vector);
                assert(val < 0x8000_0000 ==> (val as i32) as int == val) by (bit_vector);
            }
        }
        if count > 0 && val & (1 << (count - 1)) != 0 {
            let mask = !((1u32 << count) - 1);
            (val | mask) as i32
        } else {
            val as i32
        }
    }

    /// Reads a single bit.
    pub fn read_bit(&mut self) -> (b: bool)
        requires
            old(self).wf(),
        ensures
            final(self).wf(),
            final(self).bytes() == old(self).bytes(),
            final(self).saved() == old(self).saved(),
            final(self).state() == reader_step(old(self).bytes(), old(self).state(), ReaderOp::ReadBit),
            b == (read_bits_spec(old(self).bytes(), old(self).cursor(), 1).0 != 0),
            final(self).cursor() == read_bits_spec(old(self).bytes(), old(self).cursor(), 1).1,
    {
        self.read_bits(1) != 0
    }

    /// Returns the next `count` bits without consuming them.
    pub fn peek_bits(&mut self, count: u32) -> (v: u32)
        requires
            old(self).wf(),
        ensures
            final(self).wf(),
            final(self).bytes() == old(self).bytes(),
            final(self).saved() == old(self).saved(),
            final(self).state() == reader_step(old(self).bytes(), old(self).state(), ReaderOp::PeekBits(count)),
            final(self).cursor() == old(self).cursor(),
            v == read_bits_spec(old(self).bytes(), old(self).cursor(), count).0,
    {
        let saved_pos = self.pos;
        let saved_buffer = self.bit_buffer;
        let saved_left = self.bits_left;

        let result = self.read_bits(count);

        self.pos = saved_pos;
        self.bit_buffer = saved_buffer;
        self.bits_left = saved_left;

        result
    }

    /// Skips `count` bytes from the next byte boundary, stopping at the end
    /// of the data.
    pub fn skip(&mut self, count: usize)
        requires
            old(self).wf(),
            byte_index(old(self).cursor()) + count <= usize::MAX,
        ensures
            final(self).wf(),
            final(self).bytes() == old(self).bytes(),
            final(self).saved() == old(self).saved(),
            final(self).state() == reader_step(old(self).bytes(), old(self).state(), ReaderOp::Skip(count)),
            final(self).cursor() == bytes_end(old(self).bytes(), old(self).cursor(), count as int)
                * 8,
    {
        self.align_to_byte();
        self.pos += count;
        if self.pos > self.data.len() {
            self.pos = self.data.len();
        }
    }
}

} // verus!
