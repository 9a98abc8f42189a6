//! Codec primitives: variable-width integers, big-endian fixed-width
//! integers, strings, byte arrays, UUIDs, and the frame layout.

use vstd::prelude::*;
use vstd::string::StringSliceAdditionalSpecFns;

verus! {

/// The name of the version that the proxy speaks.
pub const VERSION_NAME: &'static str = "1.19.4";

/// The protocol number of that version.
pub const VERSION_PROTOCOL: i32 = 762;

/// The number of values of one 7-bit group.
const SEGMENT_SIZE: u64 = 128;

/// The bit of a byte that says that more bytes follow.
const CONTINUE_BIT: u8 = 0x80;

/// Why a frame is no packet of the phase it came in.
#[derive(Debug, Clone, Copy, PartialEq, Eq)]
pub enum PacketError {
    InvalidPacketId,
}

/// Why a value could not be read from a buffer.
#[derive(Debug, Clone, Copy, PartialEq, Eq)]
pub enum VarIntError {
    ValueTooLarge,
    RanOutOfBytes,
}

/// A chat component that holds plain text.
pub struct Chat {
    pub text: String,
}

/// Why a frame could not be turned into a packet.
#[derive(Debug, Clone, Copy, PartialEq, Eq)]
pub enum ProtocolError {
    VarInt(VarIntError),
    Packet(PacketError),
}

impl PacketError {
    /// The message shown for this error.
    pub fn message(&self) -> (s: &'static str)
        ensures
            s@ == "Invalid packet id"@,
    {
        "Invalid packet id"
    }
}

impl VarIntError {
    /// The message shown for this error.
    pub fn message(&self) -> (s: &'static str)
        ensures
            *self == VarIntError::ValueTooLarge ==> s@ == "VarInt value is too large"@,
            *self == VarIntError::RanOutOfBytes ==> s@ == "Ran out of bytes while reading VarInt"@,
    {
        match self {
            VarIntError::ValueTooLarge => "VarInt value is too large",
            VarIntError::RanOutOfBytes => "Ran out of bytes while reading VarInt",
        }
    }
}

/// The number of wire bytes a VarInt may take.
pub open spec fn var_int_limit() -> int {
    5
}

/// The number of wire bytes a VarLong may take.
pub open spec fn var_long_limit() -> int {
    10
}

/// 128 to the power `n`.
pub open spec fn pow128(n: nat) -> nat
    decreases n,
{
    if n == 0 {
        1
    } else {
        128 * pow128((n - 1) as nat)
    }
}

/// The number that a run of 7-bit groups stands for, least significant
/// group first. The top bit of each byte is ignored.
pub open spec fn var_value(bytes: Seq<u8>) -> nat
    decreases bytes.len(),
{
    if bytes.len() == 0 {
        0
    } else {
        (bytes[0] % 128) as nat + 128 * var_value(bytes.skip(1))
    }
}

/// The variable-width encoding of `v`: 7 bits per byte, least significant
/// group first, the top bit set on every byte but the last.
pub open spec fn var_bytes(v: nat) -> Seq<u8>
    decreases v,
{
    if v < 128 {
        seq![v as u8]
    } else {
        seq![((v % 128) + 128) as u8] + var_bytes(v / 128)
    }
}

/// The index of the first byte at or after `i`, and below `limit`, whose
/// top bit is clear.
pub open spec fn scan_var(data: Seq<u8>, limit: int, i: int) -> Option<int>
    decreases limit - i,
{
    if i < 0 || i >= limit || i >= data.len() {
        None
    } else if data[i] < 128 {
        Some(i)
    } else {
        scan_var(data, limit, i + 1)
    }
}

/// What reading one variable-width integer of at most `limit` bytes from the
/// front of `data` gives: the number or the error, and the bytes left.
pub open spec fn var_decode(data: Seq<u8>, limit: int) -> (Result<nat, VarIntError>, Seq<u8>) {
    match scan_var(data, limit, 0) {
        Some(i) => (Ok(var_value(data.take(i + 1))), data.skip(i + 1)),
        None => if data.len() >= limit {
            (Err(VarIntError::ValueTooLarge), data.skip(limit))
        } else {
            (Err(VarIntError::RanOutOfBytes), Seq::empty())
        },
    }
}

/// The powers of 128 that fit 70 bits.
pub proof fn lemma_pow128_values()
    ensures
        pow128(0) == 1,
        pow128(1) == 0x80,
        pow128(2) == 0x4000,
        pow128(3) == 0x20_0000,
        pow128(4) == 0x1000_0000,
        pow128(5) == 0x8_0000_0000,
        pow128(6) == 0x400_0000_0000,
        pow128(7) == 0x2_0000_0000_0000,
        pow128(8) == 0x100_0000_0000_0000,
        pow128(9) == 0x8000_0000_0000_0000,
        pow128(10) == 0x40_0000_0000_0000_0000,
{
    reveal_with_fuel(pow128, 12);
}

/// Appending one group adds its 7 bits above those already there.
pub proof fn lemma_var_value_push(bytes: Seq<u8>, b: u8)
    ensures
        var_value(bytes.push(b)) == var_value(bytes) + (b % 128) * pow128(bytes.len()),
        var_value(bytes) < pow128(bytes.len()),
    decreases bytes.len(),
{
    let low = (b % 128) as int;
    if bytes.len() == 0 {
        assert(bytes.push(b).skip(1) =~= Seq::<u8>::empty());
        assert(var_value(bytes.push(b).skip(1)) == 0);
        assert(pow128(0) == 1);
        assert(low * 1 == low);
    } else {
        let t = bytes.skip(1);
        lemma_var_value_push(t, b);
        assert(bytes.push(b).skip(1) =~= t.push(b));
        assert(bytes.push(b)[0] == bytes[0]);
        let p = pow128(t.len()) as int;
        assert(pow128(bytes.len()) == 128 * p);
        assert(128 * (low * p) == low * (128 * p)) by (nonlinear_arith);
    }
}

/// Every encoding ends in a byte below 128, all bytes before it are 128 or
/// more, and the groups spell `v` again.
pub proof fn lemma_var_bytes_shape(v: nat)
    ensures
        var_bytes(v).len() >= 1,
        var_bytes(v).last() < 128,
        forall|j: int| 0 <= j < var_bytes(v).len() - 1 ==> #[trigger] var_bytes(v)[j] >= 128,
        var_value(var_bytes(v)) == v,
    decreases v,
{
    if v < 128 {
        assert(var_bytes(v).skip(1) =~= Seq::<u8>::empty());
        assert(var_value(var_bytes(v).skip(1)) == 0);
    } else {
        lemma_var_bytes_shape(v / 128);
        let t = var_bytes(v / 128);
        let b = ((v % 128) + 128) as u8;
        assert(var_bytes(v) =~= seq![b] + t);
        assert(var_bytes(v).skip(1) =~= t);
        assert forall|j: int| 0 <= j < var_bytes(v).len() - 1 implies #[trigger] var_bytes(v)[j]
            >= 128 by {
            if j > 0 {
                assert(var_bytes(v)[j] == t[j - 1]);
            }
        }
    }
}

/// A number below 128 to the power `k` takes at most `k` bytes.
pub proof fn lemma_var_bytes_len(v: nat, k: nat)
    requires
        k >= 1,
        v < pow128(k),
    ensures
        var_bytes(v).len() <= k,
    decreases k,
{
    if v >= 128 {
        assert(pow128(1) == 128) by {
            reveal_with_fuel(pow128, 2);
        }
        assert(k >= 2);
        lemma_var_bytes_len(v / 128, (k - 1) as nat);
    }
}

proof fn lemma_scan_var_finds(data: Seq<u8>, limit: int, i: int, end: int)
    requires
        0 <= i <= end < limit,
        end < data.len(),
        data[end] < 128,
        forall|j: int| i <= j < end ==> #[trigger] data[j] >= 128,
    ensures
        scan_var(data, limit, i) == Some(end),
    decreases end - i,
{
    if i < end {
        lemma_scan_var_finds(data, limit, i + 1, end);
    }
}

/// Reading an encoding back, whatever follows it, gives the number and
/// leaves what follows.
pub proof fn lemma_var_round_trip(v: nat, limit: int, rest: Seq<u8>)
    requires
        0 < limit,
        v < pow128(limit as nat),
    ensures
        var_decode(var_bytes(v) + rest, limit) == (Ok::<nat, VarIntError>(v), rest),
{
    let e = var_bytes(v);
    let data = e + rest;
    lemma_var_bytes_shape(v);
    lemma_var_bytes_len(v, limit as nat);
    let end = e.len() - 1;
    assert(data[end] == e[end]);
    assert forall|j: int| 0 <= j < end implies #[trigger] data[j] >= 128 by {
        assert(data[j] == e[j]);
    }
    lemma_scan_var_finds(data, limit, 0, end);
    assert(data.take(end + 1) =~= e);
    assert(data.skip(end + 1) =~= rest);
}

/// What `get_var_int` returns and leaves in the buffer.
pub open spec fn spec_get_var_int(data: Seq<u8>) -> (Result<i32, VarIntError>, Seq<u8>) {
    let (r, rest) = var_decode(data, var_int_limit());
    (
        match r {
            Ok(n) => Ok(((n % 0x1_0000_0000) as u32) as i32),
            Err(e) => Err(e),
        },
        rest,
    )
}

/// What `get_var_long` returns and leaves in the buffer.
pub open spec fn spec_get_var_long(data: Seq<u8>) -> (Result<i64, VarIntError>, Seq<u8>) {
    let (r, rest) = var_decode(data, var_long_limit());
    (
        match r {
            Ok(n) => Ok(((n % 0x1_0000_0000_0000_0000) as u64) as i64),
            Err(e) => Err(e),
        },
        rest,
    )
}

/// The wire bytes of a VarInt: the 32 bits of `v` read as unsigned.
pub open spec fn spec_convert_var_int(v: i32) -> Seq<u8> {
    var_bytes((v as u32) as nat)
}

/// The wire bytes of a VarLong: the 64 bits of `v` read as unsigned.
pub open spec fn spec_convert_var_long(v: i64) -> Seq<u8> {
    var_bytes((v as u64) as nat)
}

/// The number of wire bytes that a variable-width integer of `size` bits
/// may take.
pub open spec fn var_limit(size: u8) -> int {
    if size == 32 {
        var_int_limit()
    } else {
        var_long_limit()
    }
}

/// Reads one variable-width integer of `size` bits from the front of `data`.
pub fn get_var(data: &mut Vec<u8>, size: u8) -> (r: Result<u64, VarIntError>)
    requires
        size == 32 || size == 64,
    ensures
        final(data)@ == var_decode(old(data)@, var_limit(size)).1,
        match var_decode(old(data)@, var_limit(size)).0 {
            Ok(n) => r == Ok::<u64, VarIntError>((n % 0x1_0000_0000_0000_0000) as u64) && (size
                == 32 ==> n < 0x8_0000_0000),
            Err(e) => r == Err::<u64, VarIntError>(e),
        },
{
    let ghost orig = data@;
    let ghost limit = var_limit(size);
    let ghost mut i: int = 0;
    let mut value: u64 = 0;
    let mut scale: u64 = 1;
    let mut position: u8 = 0;
    proof {
        lemma_pow128_values();
        assert(orig.take(0) =~= Seq::<u8>::empty());
        assert(orig.skip(0) =~= orig);
    }
    loop
        invariant
            size == 32 || size == 64,
            orig == old(data)@,
            limit == var_limit(size),
            0 <= i < limit,
            i <= orig.len(),
            position == 7 * i,
            position < size,
            data@ == orig.skip(i),
            scale == pow128(i as nat),
            value == var_value(orig.take(i)),
            scan_var(orig, limit, 0) == scan_var(orig, limit, i),
        decreases limit - i,
    {
        if data.len() == 0 {
            proof {
                assert(orig.skip(i).len() == 0);
                assert(data@ =~= Seq::<u8>::empty());
            }
            return Err(VarIntError::RanOutOfBytes);
        }
        let current_byte: u8 = data.remove(0);
        let low: u64 = (current_byte % 128) as u64;
        proof {
            lemma_pow128_values();
            assert(current_byte == orig[i]);
            assert(data@ =~= orig.skip(i + 1));
            lemma_var_value_push(orig.take(i), current_byte);
            assert(orig.take(i).push(current_byte) =~= orig.take(i + 1));
            assert(i == 0 || i == 1 || i == 2 || i == 3 || i == 4 || i == 5 || i == 6 || i == 7
                || i == 8 || i == 9);
            assert(low * scale <= 127 * scale) by (nonlinear_arith)
                requires
                    low <= 127,
                    scale >= 0,
            ;
            assert((low % 2) * scale <= scale) by (nonlinear_arith)
                requires
                    low % 2 <= 1,
                    scale >= 0,
            ;
        }
        if position == 63 {
            proof {
                let q = (low / 2) as int;
                let r = (low % 2) as int;
                assert(low * scale == q * 0x1_0000_0000_0000_0000 + r * scale) by (nonlinear_arith)
                    requires
                        low == 2 * q + r,
                        scale == 0x8000_0000_0000_0000,
                ;
                assert(r * scale == 0 || r * scale == scale) by (nonlinear_arith)
                    requires
                        r == 0 || r == 1,
                ;
            }
            value = value + (low % 2) * scale;
        } else {
            value = value + low * scale;
        }
        if current_byte < CONTINUE_BIT {
            return Ok(value);
        }
        position = position + 7;
        if position >= size {
            proof {
                assert(scan_var(orig, limit, i + 1) == None::<int>);
            }
            return Err(VarIntError::ValueTooLarge);
        }
        scale = scale * SEGMENT_SIZE;
        proof {
            i = i + 1;
        }
    }
}

/// Writes `value` as a variable-width integer.
pub fn convert_var(value: u64) -> (data: Vec<u8>)
    ensures
        data@ == var_bytes(value as nat),
{
    let mut data: Vec<u8> = Vec::new();
    let mut rest: u64 = value;
    loop
        invariant
            var_bytes(value as nat) == data@ + var_bytes(rest as nat),
        decreases rest,
    {
        if rest < SEGMENT_SIZE {
            proof {
                assert(data@.push(rest as u8) =~= data@ + var_bytes(rest as nat));
            }
            data.push(rest as u8);
            return data;
        }
        let group: u8 = (rest % SEGMENT_SIZE) as u8;
        proof {
            assert(data@.push((group + CONTINUE_BIT) as u8) + var_bytes((rest / 128) as nat)
                =~= data@ + var_bytes(rest as nat));
        }
        data.push(group + CONTINUE_BIT);
        rest = rest / SEGMENT_SIZE;
    }
}

/// Takes a VarInt off the front of `data`: at most five bytes of 7 bits each.
pub fn get_var_int(data: &mut Vec<u8>) -> (r: Result<i32, VarIntError>)
    ensures
        r == spec_get_var_int(old(data)@).0,
        final(data)@ == spec_get_var_int(old(data)@).1,
{
    match get_var(data, 32) {
        Ok(value) => {
            let low: u32 = (value % 0x1_0000_0000) as u32;
            proof {
                let n = var_decode(old(data)@, var_int_limit()).0->Ok_0;
                assert(n < 0x8_0000_0000);
                assert(value == n);
            }
            Ok(#[verifier::truncate] (low as i32))
        },
        Err(e) => Err(e),
    }
}

/// Writes a VarInt: at most five bytes of 7 bits each.
pub fn convert_var_int(value: i32) -> (data: Vec<u8>)
    ensures
        data@ == spec_convert_var_int(value),
{
    convert_var((#[verifier::truncate] (value as u32)) as u64)
}

/// Takes a VarLong off the front of `data`: at most ten bytes of 7 bits each.
pub fn get_var_long(data: &mut Vec<u8>) -> (r: Result<i64, VarIntError>)
    ensures
        r == spec_get_var_long(old(data)@).0,
        final(data)@ == spec_get_var_long(old(data)@).1,
{
    match get_var(data, 64) {
        Ok(value) => Ok(#[verifier::truncate] (value as i64)),
        Err(e) => Err(e),
    }
}

/// Writes a VarLong: at most ten bytes of 7 bits each.
pub fn convert_var_long(value: i64) -> (data: Vec<u8>)
    ensures
        data@ == spec_convert_var_long(value),
{
    convert_var(#[verifier::truncate] (value as u64))
}

/// A VarInt that is written and read back is unchanged, and what followed
/// it stays in the buffer.
pub proof fn lemma_var_int_round_trip(v: i32, rest: Seq<u8>)
    ensures
        spec_get_var_int(spec_convert_var_int(v) + rest) == (Ok::<i32, VarIntError>(v), rest),
{
    let n = (v as u32) as nat;
    lemma_pow128_values();
    lemma_var_round_trip(n, var_int_limit(), rest);
    assert(((n % 0x1_0000_0000) as u32) == v as u32);
    assert(((v as u32) as i32) == v) by (bit_vector);
}

/// A VarLong that is written and read back is unchanged, and what followed
/// it stays in the buffer.
pub proof fn lemma_var_long_round_trip(v: i64, rest: Seq<u8>)
    ensures
        spec_get_var_long(spec_convert_var_long(v) + rest) == (Ok::<i64, VarIntError>(v), rest),
{
    let n = (v as u64) as nat;
    lemma_pow128_values();
    lemma_var_round_trip(n, var_long_limit(), rest);
    assert(((n % 0x1_0000_0000_0000_0000) as u64) == v as u64);
    assert(((v as u64) as i64) == v) by (bit_vector);
}

/// Six bytes whose first five all have the top bit set are refused as too
/// large, and so is any longer input that starts so.
pub proof fn lemma_var_int_too_large(data: Seq<u8>)
    requires
        data.len() >= 5,
        forall|j: int| 0 <= j < 5 ==> #[trigger] data[j] >= 128,
    ensures
        spec_get_var_int(data) == (Err::<i32, VarIntError>(VarIntError::ValueTooLarge), data.skip(5)),
{
    reveal_with_fuel(scan_var, 6);
}

/// 256 to the power `n`.
pub open spec fn pow256(n: nat) -> nat
    decreases n,
{
    if n == 0 {
        1
    } else {
        256 * pow256((n - 1) as nat)
    }
}

/// The number that `bytes` spell, most significant byte first.
pub open spec fn be_value(bytes: Seq<u8>) -> nat
    decreases bytes.len(),
{
    if bytes.len() == 0 {
        0
    } else {
        256 * be_value(bytes.drop_last()) + bytes.last() as nat
    }
}

/// The low `n` bytes of `v`, most significant byte first.
pub open spec fn be_bytes(v: nat, n: nat) -> Seq<u8>
    decreases n,
{
    if n == 0 {
        Seq::empty()
    } else {
        be_bytes(v / 256, (n - 1) as nat).push((v % 256) as u8)
    }
}

/// The powers of 256 that fit 128 bits.
pub proof fn lemma_pow256_values()
    ensures
        pow256(0) == 1,
        pow256(1) == 0x100,
        pow256(2) == 0x1_0000,
        pow256(3) == 0x100_0000,
        pow256(4) == 0x1_0000_0000,
        pow256(5) == 0x100_0000_0000,
        pow256(6) == 0x1_0000_0000_0000,
        pow256(7) == 0x100_0000_0000_0000,
        pow256(8) == 0x1_0000_0000_0000_0000,
        pow256(9) == 0x100_0000_0000_0000_0000,
        pow256(10) == 0x1_0000_0000_0000_0000_0000,
        pow256(11) == 0x100_0000_0000_0000_0000_0000,
        pow256(12) == 0x1_0000_0000_0000_0000_0000_0000,
        pow256(13) == 0x100_0000_0000_0000_0000_0000_0000,
        pow256(14) == 0x1_0000_0000_0000_0000_0000_0000_0000,
        pow256(15) == 0x100_0000_0000_0000_0000_0000_0000_0000,
        pow256(16) == 0x1_0000_0000_0000_0000_0000_0000_0000_0000,
{
    reveal_with_fuel(pow256, 18);
}

/// `n` bytes are written for a number, whatever the number.
pub proof fn lemma_be_bytes_len(v: nat, n: nat)
    ensures
        be_bytes(v, n).len() == n,
    decreases n,
{
    if n > 0 {
        lemma_be_bytes_len(v / 256, (n - 1) as nat);
    }
}

/// `n` bytes spell a number below 256 to the power `n`.
pub proof fn lemma_be_value_bound(bytes: Seq<u8>)
    ensures
        be_value(bytes) < pow256(bytes.len()),
    decreases bytes.len(),
{
    if bytes.len() > 0 {
        lemma_be_value_bound(bytes.drop_last());
    }
}

/// The `n` bytes of a number below 256 to the power `n` spell it again.
pub proof fn lemma_be_round_trip(v: nat, n: nat)
    requires
        v < pow256(n),
    ensures
        be_value(be_bytes(v, n)) == v,
    decreases n,
{
    if n > 0 {
        lemma_be_round_trip(v / 256, (n - 1) as nat);
        let head = be_bytes(v / 256, (n - 1) as nat);
        assert(be_bytes(v, n).drop_last() =~= head);
    }
}

/// Bytes that spell a number are the bytes written for that number.
pub proof fn lemma_be_bytes_of_value(bytes: Seq<u8>)
    ensures
        be_bytes(be_value(bytes), bytes.len()) == bytes,
    decreases bytes.len(),
{
    if bytes.len() > 0 {
        lemma_be_bytes_of_value(bytes.drop_last());
        assert(bytes.drop_last().push(bytes.last()) =~= bytes);
    }
}

/// Takes `n` bytes off the front of `data` and returns the number they
/// spell, most significant byte first.
fn get_be(data: &mut Vec<u8>, n: usize) -> (value: u128)
    requires
        n <= 16,
        old(data)@.len() >= n,
    ensures
        value == be_value(old(data)@.take(n as int)),
        value < pow256(n as nat),
        final(data)@ == old(data)@.skip(n as int),
{
    let ghost orig = data@;
    let mut value: u128 = 0;
    let mut i: usize = 0;
    proof {
        assert(orig.take(0) =~= Seq::<u8>::empty());
        assert(orig.skip(0) =~= orig);
    }
    while i < n
        invariant
            n <= 16,
            i <= n <= orig.len(),
            data@ == orig.skip(i as int),
            value == be_value(orig.take(i as int)),
            value < pow256(i as nat),
        decreases n - i,
    {
        let b: u8 = data.remove(0);
        proof {
            lemma_pow256_values();
            assert(i == 0 || i == 1 || i == 2 || i == 3 || i == 4 || i == 5 || i == 6 || i == 7
                || i == 8 || i == 9 || i == 10 || i == 11 || i == 12 || i == 13 || i == 14 || i
                == 15);
            assert(b == orig[i as int]);
            assert(data@ =~= orig.skip(i + 1));
            assert(orig.take(i + 1).drop_last() =~= orig.take(i as int));
            assert(orig.take(i + 1).last() == b);
        }
        value = value * 256 + b as u128;
        i = i + 1;
    }
    value
}

/// Writes the low `n` bytes of `value`, most significant byte first.
fn convert_be(value: u128, n: usize) -> (data: Vec<u8>)
    requires
        n <= 16,
    ensures
        data@ == be_bytes(value as nat, n as nat),
{
    let mut data: Vec<u8> = Vec::new();
    let mut k: usize = 0;
    while k < n
        invariant
            k <= n,
            data@.len() == k,
        decreases n - k,
    {
        data.push(0u8);
        k = k + 1;
    }
    let mut rest: u128 = value;
    let mut i: usize = n;
    proof {
        assert(data@.skip(n as int) =~= Seq::<u8>::empty());
        assert(be_bytes(rest as nat, i as nat) + data@.skip(i as int) =~= be_bytes(
            value as nat,
            n as nat,
        ));
    }
    while i > 0
        invariant
            i <= n,
            data@.len() == n,
            be_bytes(value as nat, n as nat) == be_bytes(rest as nat, i as nat) + data@.skip(
                i as int,
            ),
        decreases i,
    {
        let ghost before = data@;
        i = i - 1;
        data.set(i, (rest % 256) as u8);
        proof {
            lemma_be_bytes_len((rest / 256) as nat, i as nat);
            assert(be_bytes((rest / 256) as nat, i as nat) + data@.skip(i as int) =~= be_bytes(
                rest as nat,
                (i + 1) as nat,
            ) + before.skip(i + 1));
        }
        rest = rest / 256;
    }
    proof {
        assert(data@.skip(0) =~= data@);
        assert(be_bytes(rest as nat, 0) + data@ =~= data@);
    }
    data
}

/// What `get_bool` returns: the value of the first bytes of `data`, read as
/// a boolean.
pub open spec fn spec_get_bool(data: Seq<u8>) -> bool {
    data[0] != 0
}

/// The wire bytes of a boolean: one byte, 1 for true and 0 for false.
pub open spec fn spec_convert_bool(value: bool) -> Seq<u8> {
    seq![if value { 1u8 } else { 0u8 }]
}

/// Takes a boolean off the front of `data`: one byte, true unless the byte is 0.
pub fn get_bool(data: &mut Vec<u8>) -> (r: bool)
    requires
        old(data)@.len() >= 1,
    ensures
        r == spec_get_bool(old(data)@),
        final(data)@ == old(data)@.skip(1),
{
    let b: u8 = data.remove(0);
    proof {
        assert(data@ =~= old(data)@.skip(1));
    }
    b != 0
}

/// Writes a boolean: one byte, 1 for true and 0 for false.
pub fn convert_bool(value: bool) -> (data: Vec<u8>)
    ensures
        data@ == spec_convert_bool(value),
{
    let b: u8 = if value { 1 } else { 0 };
    let data: Vec<u8> = vec![b];
    proof {
        assert(data@ =~= spec_convert_bool(value));
    }
    data
}

/// What `get_u8` returns: the value of the first bytes of `data`, read as
/// a `u8`.
pub open spec fn spec_get_u8(data: Seq<u8>) -> u8 {
    data[0]
}

/// The wire bytes of a `u8`: one byte.
pub open spec fn spec_convert_u8(value: u8) -> Seq<u8> {
    seq![value]
}

/// Takes a `u8` off the front of `data`: one byte.
pub fn get_u8(data: &mut Vec<u8>) -> (r: u8)
    requires
        old(data)@.len() >= 1,
    ensures
        r == spec_get_u8(old(data)@),
        final(data)@ == old(data)@.skip(1),
{
    let b: u8 = data.remove(0);
    proof {
        assert(data@ =~= old(data)@.skip(1));
    }
    b
}

/// Writes a `u8`: one byte.
pub fn convert_u8(value: u8) -> (data: Vec<u8>)
    ensures
        data@ == spec_convert_u8(value),
{
    let data: Vec<u8> = vec![value];
    proof {
        assert(data@ =~= spec_convert_u8(value));
    }
    data
}

/// What `get_i8` returns: the value of the first bytes of `data`, read as
/// an `i8`.
pub open spec fn spec_get_i8(data: Seq<u8>) -> i8 {
    data[0] as i8
}

/// The wire bytes of an `i8`: one byte in two's complement.
pub open spec fn spec_convert_i8(value: i8) -> Seq<u8> {
    seq![value as u8]
}

/// Takes an `i8` off the front of `data`: one byte in two's complement.
pub fn get_i8(data: &mut Vec<u8>) -> (r: i8)
    requires
        old(data)@.len() >= 1,
    ensures
        r == spec_get_i8(old(data)@),
        final(data)@ == old(data)@.skip(1),
{
    #[verifier::truncate]
    (get_u8(data) as i8)
}

/// Writes an `i8`: one byte in two's complement.
pub fn convert_i8(value: i8) -> (data: Vec<u8>)
    ensures
        data@ == spec_convert_i8(value),
{
    convert_u8(#[verifier::truncate] (value as u8))
}

/// What `get_u16` returns: the value of the first bytes of `data`, read as
/// a `u16`.
pub open spec fn spec_get_u16(data: Seq<u8>) -> u16 {
    be_value(data.take(2)) as u16
}

/// The wire bytes of a `u16`: two bytes, most significant first.
pub open spec fn spec_convert_u16(value: u16) -> Seq<u8> {
    be_bytes(value as nat, 2)
}

/// Takes a `u16` off the front of `data`: two bytes, most significant first.
pub fn get_u16(data: &mut Vec<u8>) -> (r: u16)
    requires
        old(data)@.len() >= 2,
    ensures
        r == spec_get_u16(old(data)@),
        final(data)@ == old(data)@.skip(2),
{
    proof {
        lemma_pow256_values();
    }
    get_be(data, 2) as u16
}

/// Writes a `u16`: two bytes, most significant first.
pub fn convert_u16(value: u16) -> (data: Vec<u8>)
    ensures
        data@ == spec_convert_u16(value),
{
    convert_be(value as u128, 2)
}

/// What `get_i16` returns: the value of the first bytes of `data`, read as
/// an `i16`.
pub open spec fn spec_get_i16(data: Seq<u8>) -> i16 {
    spec_get_u16(data) as i16
}

/// The wire bytes of an `i16`: two bytes in two's complement, most significant first.
pub open spec fn spec_convert_i16(value: i16) -> Seq<u8> {
    spec_convert_u16(value as u16)
}

/// Takes an `i16` off the front of `data`: two bytes in two's complement, most significant first.
pub fn get_i16(data: &mut Vec<u8>) -> (r: i16)
    requires
        old(data)@.len() >= 2,
    ensures
        r == spec_get_i16(old(data)@),
        final(data)@ == old(data)@.skip(2),
{
    #[verifier::truncate]
    (get_u16(data) as i16)
}

/// Writes an `i16`: two bytes in two's complement, most significant first.
pub fn convert_i16(value: i16) -> (data: Vec<u8>)
    ensures
        data@ == spec_convert_i16(value),
{
    convert_u16(#[verifier::truncate] (value as u16))
}

/// What `get_u32` returns: the value of the first bytes of `data`, read as
/// a `u32`.
pub open spec fn spec_get_u32(data: Seq<u8>) -> u32 {
    be_value(data.take(4)) as u32
}

/// The wire bytes of a `u32`: four bytes, most significant first.
pub open spec fn spec_convert_u32(value: u32) -> Seq<u8> {
    be_bytes(value as nat, 4)
}

/// Takes a `u32` off the front of `data`: four bytes, most significant first.
pub fn get_u32(data: &mut Vec<u8>) -> (r: u32)
    requires
        old(data)@.len() >= 4,
    ensures
        r == spec_get_u32(old(data)@),
        final(data)@ == old(data)@.skip(4),
{
    proof {
        lemma_pow256_values();
    }
    get_be(data, 4) as u32
}

/// Writes a `u32`: four bytes, most significant first.
pub fn convert_u32(value: u32) -> (data: Vec<u8>)
    ensures
        data@ == spec_convert_u32(value),
{
    convert_be(value as u128, 4)
}

/// What `get_i32` returns: the value of the first bytes of `data`, read as
/// an `i32`.
pub open spec fn spec_get_i32(data: Seq<u8>) -> i32 {
    spec_get_u32(data) as i32
}

/// The wire bytes of an `i32`: four bytes in two's complement, most significant first.
pub open spec fn spec_convert_i32(value: i32) -> Seq<u8> {
    spec_convert_u32(value as u32)
}

/// Takes an `i32` off the front of `data`: four bytes in two's complement, most significant first.
pub fn get_i32(data: &mut Vec<u8>) -> (r: i32)
    requires
        old(data)@.len() >= 4,
    ensures
        r == spec_get_i32(old(data)@),
        final(data)@ == old(data)@.skip(4),
{
    #[verifier::truncate]
    (get_u32(data) as i32)
}

/// Writes an `i32`: four bytes in two's complement, most significant first.
pub fn convert_i32(value: i32) -> (data: Vec<u8>)
    ensures
        data@ == spec_convert_i32(value),
{
    convert_u32(#[verifier::truncate] (value as u32))
}

/// What `get_u64` returns: the value of the first bytes of `data`, read as
/// a `u64`.
pub open spec fn spec_get_u64(data: Seq<u8>) -> u64 {
    be_value(data.take(8)) as u64
}

/// The wire bytes of a `u64`: eight bytes, most significant first.
pub open spec fn spec_convert_u64(value: u64) -> Seq<u8> {
    be_bytes(value as nat, 8)
}

/// Takes a `u64` off the front of `data`: eight bytes, most significant first.
pub fn get_u64(data: &mut Vec<u8>) -> (r: u64)
    requires
        old(data)@.len() >= 8,
    ensures
        r == spec_get_u64(old(data)@),
        final(data)@ == old(data)@.skip(8),
{
    proof {
        lemma_pow256_values();
    }
    get_be(data, 8) as u64
}

/// Writes a `u64`: eight bytes, most significant first.
pub fn convert_u64(value: u64) -> (data: Vec<u8>)
    ensures
        data@ == spec_convert_u64(value),
{
    convert_be(value as u128, 8)
}

/// What `get_i64` returns: the value of the first bytes of `data`, read as
/// an `i64`.
pub open spec fn spec_get_i64(data: Seq<u8>) -> i64 {
    spec_get_u64(data) as i64
}

/// The wire bytes of an `i64`: eight bytes in two's complement, most significant first.
pub open spec fn spec_convert_i64(value: i64) -> Seq<u8> {
    spec_convert_u64(value as u64)
}

/// Takes an `i64` off the front of `data`: eight bytes in two's complement, most significant first.
pub fn get_i64(data: &mut Vec<u8>) -> (r: i64)
    requires
        old(data)@.len() >= 8,
    ensures
        r == spec_get_i64(old(data)@),
        final(data)@ == old(data)@.skip(8),
{
    #[verifier::truncate]
    (get_u64(data) as i64)
}

/// Writes an `i64`: eight bytes in two's complement, most significant first.
pub fn convert_i64(value: i64) -> (data: Vec<u8>)
    ensures
        data@ == spec_convert_i64(value),
{
    convert_u64(#[verifier::truncate] (value as u64))
}

/// What `get_uuid` returns: the value of the first bytes of `data`, read as
/// a UUID.
pub open spec fn spec_get_uuid(data: Seq<u8>) -> u128 {
    be_value(data.take(16)) as u128
}

/// The wire bytes of a UUID: 16 bytes, most significant first.
pub open spec fn spec_convert_uuid(value: u128) -> Seq<u8> {
    be_bytes(value as nat, 16)
}

/// Takes a UUID off the front of `data`: 16 bytes, most significant first.
pub fn get_uuid(data: &mut Vec<u8>) -> (r: u128)
    requires
        old(data)@.len() >= 16,
    ensures
        r == spec_get_uuid(old(data)@),
        final(data)@ == old(data)@.skip(16),
{
    get_be(data, 16)
}

/// Writes a UUID: 16 bytes, most significant first.
pub fn convert_uuid(value: u128) -> (data: Vec<u8>)
    ensures
        data@ == spec_convert_uuid(value),
{
    convert_be(value, 16)
}

/// Reading `n` bytes back from the front of what was written for a number
/// below 256 to the power `n` gives the number, and leaves what followed.
pub proof fn lemma_be_prefix(v: nat, n: nat, rest: Seq<u8>)
    requires
        v < pow256(n),
    ensures
        (be_bytes(v, n) + rest).len() >= n,
        be_value((be_bytes(v, n) + rest).take(n as int)) == v,
        (be_bytes(v, n) + rest).skip(n as int) == rest,
{
    lemma_be_bytes_len(v, n);
    lemma_be_round_trip(v, n);
    assert((be_bytes(v, n) + rest).take(n as int) =~= be_bytes(v, n));
    assert((be_bytes(v, n) + rest).skip(n as int) =~= rest);
}

/// A boolean that is written and read back is unchanged.
pub proof fn lemma_bool_round_trip(v: bool, rest: Seq<u8>)
    ensures
        spec_get_bool(spec_convert_bool(v) + rest) == v,
        (spec_convert_bool(v) + rest).skip(1) == rest,
{
    assert((spec_convert_bool(v) + rest).skip(1) =~= rest);
}

/// A `u8` that is written and read back is unchanged.
pub proof fn lemma_u8_round_trip(v: u8, rest: Seq<u8>)
    ensures
        spec_get_u8(spec_convert_u8(v) + rest) == v,
        (spec_convert_u8(v) + rest).skip(1) == rest,
{
    assert((spec_convert_u8(v) + rest).skip(1) =~= rest);
}

/// An `i8` that is written and read back is unchanged.
pub proof fn lemma_i8_round_trip(v: i8, rest: Seq<u8>)
    ensures
        spec_get_i8(spec_convert_i8(v) + rest) == v,
        (spec_convert_i8(v) + rest).skip(1) == rest,
{
    assert((spec_convert_i8(v) + rest).skip(1) =~= rest);
    assert(((v as u8) as i8) == v) by (bit_vector);
}

/// A `u16` that is written and read back is unchanged.
pub proof fn lemma_u16_round_trip(v: u16, rest: Seq<u8>)
    ensures
        spec_get_u16(spec_convert_u16(v) + rest) == v,
        (spec_convert_u16(v) + rest).skip(2) == rest,
{
    lemma_pow256_values();
    lemma_be_prefix(v as nat, 2, rest);
}

/// An `i16` that is written and read back is unchanged.
pub proof fn lemma_i16_round_trip(v: i16, rest: Seq<u8>)
    ensures
        spec_get_i16(spec_convert_i16(v) + rest) == v,
        (spec_convert_i16(v) + rest).skip(2) == rest,
{
    lemma_u16_round_trip(v as u16, rest);
    assert(((v as u16) as i16) == v) by (bit_vector);
}

/// A `u32` that is written and read back is unchanged.
pub proof fn lemma_u32_round_trip(v: u32, rest: Seq<u8>)
    ensures
        spec_get_u32(spec_convert_u32(v) + rest) == v,
        (spec_convert_u32(v) + rest).skip(4) == rest,
{
    lemma_pow256_values();
    lemma_be_prefix(v as nat, 4, rest);
}

/// An `i32` that is written and read back is unchanged.
pub proof fn lemma_i32_round_trip(v: i32, rest: Seq<u8>)
    ensures
        spec_get_i32(spec_convert_i32(v) + rest) == v,
        (spec_convert_i32(v) + rest).skip(4) == rest,
{
    lemma_u32_round_trip(v as u32, rest);
    assert(((v as u32) as i32) == v) by (bit_vector);
}

/// A `u64` that is written and read back is unchanged.
pub proof fn lemma_u64_round_trip(v: u64, rest: Seq<u8>)
    ensures
        spec_get_u64(spec_convert_u64(v) + rest) == v,
        (spec_convert_u64(v) + rest).skip(8) == rest,
{
    lemma_pow256_values();
    lemma_be_prefix(v as nat, 8, rest);
}

/// An `i64` that is written and read back is unchanged.
pub proof fn lemma_i64_round_trip(v: i64, rest: Seq<u8>)
    ensures
        spec_get_i64(spec_convert_i64(v) + rest) == v,
        (spec_convert_i64(v) + rest).skip(8) == rest,
{
    lemma_u64_round_trip(v as u64, rest);
    assert(((v as u64) as i64) == v) by (bit_vector);
}

/// A UUID that is written and read back is unchanged.
pub proof fn lemma_uuid_round_trip(v: u128, rest: Seq<u8>)
    ensures
        spec_get_uuid(spec_convert_uuid(v) + rest) == v,
        (spec_convert_uuid(v) + rest).skip(16) == rest,
{
    lemma_pow256_values();
    lemma_be_prefix(v as nat, 16, rest);
}

/// What `String::from_utf8_lossy` makes of `bytes`.
pub uninterp spec fn utf8_lossy(bytes: Seq<u8>) -> Seq<char>;

/// The text that a run of bytes is read as: what they encode where they
/// are valid UTF-8, and else the lossy reading of them.
pub open spec fn spec_utf8_text(bytes: Seq<u8>) -> Seq<char> {
    if vstd::utf8::valid_utf8(bytes) {
        vstd::utf8::decode_utf8(bytes)
    } else {
        utf8_lossy(bytes)
    }
}

/// `String::from_utf8_lossy`, then `to_string`. The text is a function of
/// the bytes alone; for bytes that are valid UTF-8 it is the text that they
/// encode, as the documentation of std says. What it is for other bytes
/// (each invalid sequence replaced) is only named.
#[verifier::external_body]
fn string_from_utf8_lossy(bytes: &Vec<u8>) -> (text: String)
    ensures
        text@ == spec_utf8_text(bytes@),
        !vstd::utf8::valid_utf8(bytes@) ==> text@ == utf8_lossy(bytes@),
{
    String::from_utf8_lossy(bytes).to_string()
}

/// The length prefix written for `len` bytes: `len` as a 32-bit VarInt.
pub open spec fn spec_length_prefix(len: nat) -> Seq<u8> {
    var_bytes(len % 0x1_0000_0000)
}

/// What `get_byte_array` returns and leaves in the buffer: a VarInt length,
/// then that many bytes. A negative length, or one beyond the end of the
/// buffer, is an error that leaves what followed the length.
pub open spec fn spec_get_byte_array(data: Seq<u8>) -> (Result<Seq<u8>, VarIntError>, Seq<u8>) {
    let (r, rest) = spec_get_var_int(data);
    match r {
        Err(e) => (Err(e), rest),
        Ok(n) => if n < 0 || rest.len() < n {
            (Err(VarIntError::RanOutOfBytes), rest)
        } else {
            (Ok(rest.take(n as int)), rest.skip(n as int))
        },
    }
}

/// The wire bytes of a byte array: a VarInt length, then that many bytes.
pub open spec fn spec_convert_byte_array(bytes: Seq<u8>) -> Seq<u8> {
    spec_length_prefix(bytes.len()) + bytes
}

/// What `get_string` returns and leaves in the buffer.
pub open spec fn spec_get_string(data: Seq<u8>) -> (Result<Seq<char>, VarIntError>, Seq<u8>) {
    let (r, rest) = spec_get_byte_array(data);
    (
        match r {
            Ok(bytes) => Ok(spec_utf8_text(bytes)),
            Err(e) => Err(e),
        },
        rest,
    )
}

/// The wire bytes of a string: a VarInt length, then that many bytes of UTF-8.
pub open spec fn spec_convert_string(s: Seq<char>) -> Seq<u8> {
    spec_convert_byte_array(vstd::utf8::encode_utf8(s))
}

/// Appends a copy of `bytes` to `data`.
pub fn append_bytes(data: &mut Vec<u8>, bytes: &[u8])
    ensures
        final(data)@ == old(data)@ + bytes@,
{
    let mut i: usize = 0;
    while i < bytes.len()
        invariant
            i <= bytes@.len(),
            data@ == old(data)@ + bytes@.take(i as int),
        decreases bytes@.len() - i,
    {
        data.push(bytes[i]);
        i = i + 1;
        proof {
            assert(data@ =~= old(data)@ + bytes@.take(i as int));
        }
    }
    proof {
        assert(bytes@.take(bytes@.len() as int) =~= bytes@);
    }
}

/// Writes the length prefix of `len` bytes.
fn convert_length(len: usize) -> (data: Vec<u8>)
    ensures
        data@ == spec_length_prefix(len as nat),
{
    convert_var((len as u64) % 0x1_0000_0000)
}

/// Takes a byte array off the front of `data`: a VarInt length, then that many bytes.
pub fn get_byte_array(data: &mut Vec<u8>) -> (r: Result<Vec<u8>, VarIntError>)
    ensures
        match r {
            Ok(bytes) => spec_get_byte_array(old(data)@).0 == Ok::<Seq<u8>, VarIntError>(bytes@),
            Err(e) => spec_get_byte_array(old(data)@).0 == Err::<Seq<u8>, VarIntError>(e),
        },
        final(data)@ == spec_get_byte_array(old(data)@).1,
{
    let length: i32 = match get_var_int(data) {
        Ok(n) => n,
        Err(e) => {
            return Err(e);
        },
    };
    if length < 0 || data.len() < length as usize {
        return Err(VarIntError::RanOutOfBytes);
    }
    let ghost rest = data@;
    let mut buffer: Vec<u8> = Vec::new();
    let mut i: usize = 0;
    while i < length as usize
        invariant
            0 <= length,
            i <= length <= rest.len(),
            buffer@ == rest.take(i as int),
            data@ == rest.skip(i as int),
        decreases length - i,
    {
        let b: u8 = data.remove(0);
        buffer.push(b);
        i = i + 1;
        proof {
            assert(buffer@ =~= rest.take(i as int));
            assert(data@ =~= rest.skip(i as int));
        }
    }
    Ok(buffer)
}

/// Writes a byte array: a VarInt length, then that many bytes.
pub fn convert_byte_array(bytes: &Vec<u8>) -> (data: Vec<u8>)
    ensures
        data@ == spec_convert_byte_array(bytes@),
{
    let mut data: Vec<u8> = convert_length(bytes.len());
    append_bytes(&mut data, bytes.as_slice());
    data
}

/// Takes a string off the front of `data`: a VarInt length, then that many bytes of UTF-8.
pub fn get_string(data: &mut Vec<u8>) -> (r: Result<String, VarIntError>)
    ensures
        match r {
            Ok(s) => spec_get_string(old(data)@).0 == Ok::<Seq<char>, VarIntError>(s@),
            Err(e) => spec_get_string(old(data)@).0 == Err::<Seq<char>, VarIntError>(e),
        },
        final(data)@ == spec_get_string(old(data)@).1,
{
    match get_byte_array(data) {
        Ok(buffer) => Ok(string_from_utf8_lossy(&buffer)),
        Err(e) => Err(e),
    }
}

/// Writes a string: a VarInt length, then that many bytes of UTF-8.
pub fn convert_string(s: &str) -> (data: Vec<u8>)
    ensures
        data@ == spec_convert_string(s@),
{
    let bytes: &[u8] = s.as_bytes();
    let mut data: Vec<u8> = convert_length(bytes.len());
    append_bytes(&mut data, bytes);
    proof {
        assert(bytes@ == s.spec_bytes());
        assert(s.spec_bytes() == vstd::utf8::encode_utf8(s@));
    }
    data
}

/// A byte array of fewer than 2^31 bytes that is written and read back is
/// unchanged, and what followed it stays in the buffer.
pub proof fn lemma_byte_array_round_trip(bytes: Seq<u8>, rest: Seq<u8>)
    requires
        bytes.len() <= i32::MAX,
    ensures
        spec_get_byte_array(spec_convert_byte_array(bytes) + rest) == (
            Ok::<Seq<u8>, VarIntError>(bytes),
            rest,
        ),
{
    let n = bytes.len() as i32;
    assert(((n as u32) as nat) == bytes.len()) by {
        assert(n >= 0 ==> (n as u32) == n) by (bit_vector);
    }
    assert(spec_length_prefix(bytes.len()) == spec_convert_var_int(n));
    let tail = bytes + rest;
    assert(spec_convert_byte_array(bytes) + rest =~= spec_convert_var_int(n) + tail);
    lemma_var_int_round_trip(n, tail);
    assert(tail.take(n as int) =~= bytes);
    assert(tail.skip(n as int) =~= rest);
}

/// A string whose UTF-8 form has fewer than 2^31 bytes, written and read
/// back, is unchanged, and what followed it stays in the buffer.
pub proof fn lemma_string_round_trip(s: Seq<char>, rest: Seq<u8>)
    requires
        vstd::utf8::encode_utf8(s).len() <= i32::MAX,
    ensures
        spec_get_string(spec_convert_string(s) + rest) == (Ok::<Seq<char>, VarIntError>(s), rest),
{
    let bytes = vstd::utf8::encode_utf8(s);
    lemma_byte_array_round_trip(bytes, rest);
    vstd::utf8::encode_utf8_valid_utf8(s);
    vstd::utf8::encode_utf8_decode_utf8(s);
}

/// What `read_data` returns and leaves in the stream: one frame, a VarInt
/// length followed by that many payload bytes.
pub open spec fn spec_read_data(stream: Seq<u8>) -> (Result<Seq<u8>, VarIntError>, Seq<u8>) {
    spec_get_byte_array(stream)
}

/// The wire bytes of one frame.
pub open spec fn spec_frame(payload: Seq<u8>) -> Seq<u8> {
    spec_convert_byte_array(payload)
}

/// Takes one frame off the front of the received bytes and returns its
/// payload. Bytes after the frame stay in the stream.
pub fn read_data(stream: &mut Vec<u8>) -> (r: Result<Vec<u8>, VarIntError>)
    ensures
        match r {
            Ok(payload) => spec_read_data(old(stream)@).0 == Ok::<Seq<u8>, VarIntError>(payload@),
            Err(e) => spec_read_data(old(stream)@).0 == Err::<Seq<u8>, VarIntError>(e),
        },
        final(stream)@ == spec_read_data(old(stream)@).1,
{
    get_byte_array(stream)
}

/// Appends `data` to the stream as one frame, and leaves `data` empty.
pub fn write_data(stream: &mut Vec<u8>, data: &mut Vec<u8>)
    ensures
        final(stream)@ == old(stream)@ + spec_frame(old(data)@),
        final(data)@ == Seq::<u8>::empty(),
{
    let mut out_data: Vec<u8> = convert_length(data.len());
    out_data.append(data);
    stream.append(&mut out_data);
}

/// How many bytes a receiver still has to read before `buffer` holds a
/// whole frame: none where it does, one while the length is not whole,
/// and else what is missing of the payload. A length that is too large or
/// negative is an error.
pub open spec fn spec_frame_missing(buffer: Seq<u8>) -> Result<nat, VarIntError> {
    match spec_get_var_int(buffer) {
        (Err(VarIntError::RanOutOfBytes), _) => Ok(1),
        (Err(VarIntError::ValueTooLarge), _) => Err(VarIntError::ValueTooLarge),
        (Ok(length), rest) => if length < 0 {
            Err(VarIntError::RanOutOfBytes)
        } else if rest.len() >= length {
            Ok(0)
        } else {
            Ok((length - rest.len()) as nat)
        },
    }
}

/// Says how many bytes are to be read next from the peer before
/// `read_data` can take a frame off `buffer`.
pub fn frame_missing(buffer: &Vec<u8>) -> (r: Result<usize, VarIntError>)
    ensures
        match r {
            Ok(count) => spec_frame_missing(buffer@) == Ok::<nat, VarIntError>(count as nat),
            Err(e) => spec_frame_missing(buffer@) == Err::<nat, VarIntError>(e),
        },
{
    let mut rest: Vec<u8> = Vec::new();
    append_bytes(&mut rest, buffer.as_slice());
    proof {
        assert(rest@ =~= buffer@);
    }
    match get_var_int(&mut rest) {
        Err(VarIntError::RanOutOfBytes) => Ok(1),
        Err(VarIntError::ValueTooLarge) => Err(VarIntError::ValueTooLarge),
        Ok(length) => {
            if length < 0 {
                Err(VarIntError::RanOutOfBytes)
            } else if rest.len() >= length as usize {
                Ok(0)
            } else {
                Ok(length as usize - rest.len())
            }
        },
    }
}

/// A receiver has nothing more to read exactly when a frame can be taken
/// off the buffer.
pub proof fn lemma_frame_missing_nothing(buffer: Seq<u8>)
    ensures
        spec_frame_missing(buffer) == Ok::<nat, VarIntError>(0) <==> spec_read_data(buffer).0 is Ok,
{
}

/// The wire bytes of a run of frames, in order.
pub open spec fn spec_frames(payloads: Seq<Seq<u8>>) -> Seq<u8>
    decreases payloads.len(),
{
    if payloads.len() == 0 {
        Seq::empty()
    } else {
        spec_frame(payloads[0]) + spec_frames(payloads.skip(1))
    }
}

/// What reading `n` frames in a row gives: the payloads in order, or
/// nothing if one of the reads fails; and the bytes then left.
pub open spec fn spec_read_frames(stream: Seq<u8>, n: nat) -> (Option<Seq<Seq<u8>>>, Seq<u8>)
    decreases n,
{
    if n == 0 {
        (Some(Seq::empty()), stream)
    } else {
        match spec_read_data(stream) {
            (Ok(payload), rest) => match spec_read_frames(rest, (n - 1) as nat) {
                (Some(more), left) => (Some(seq![payload] + more), left),
                (None, left) => (None, left),
            },
            (Err(_), rest) => (None, rest),
        }
    }
}

/// One frame that is written and read back gives its payload, and what
/// followed it stays in the stream.
pub proof fn lemma_frame_round_trip(payload: Seq<u8>, rest: Seq<u8>)
    requires
        payload.len() <= i32::MAX,
    ensures
        spec_read_data(spec_frame(payload) + rest) == (Ok::<Seq<u8>, VarIntError>(payload), rest),
{
    lemma_byte_array_round_trip(payload, rest);
}

/// Writing one more frame appends it to the run.
pub proof fn lemma_frames_push(payloads: Seq<Seq<u8>>, payload: Seq<u8>)
    ensures
        spec_frames(payloads.push(payload)) == spec_frames(payloads) + spec_frame(payload),
    decreases payloads.len(),
{
    if payloads.len() == 0 {
        assert(payloads.push(payload).skip(1) =~= Seq::<Seq<u8>>::empty());
        assert(spec_frames(payloads.push(payload).skip(1)) =~= Seq::<u8>::empty());
        assert(payloads.push(payload)[0] == payload);
        assert(spec_frames(payloads.push(payload)) =~= spec_frame(payload) + Seq::<u8>::empty());
        assert(spec_frames(payloads) + spec_frame(payload) =~= spec_frame(payload));
    } else {
        lemma_frames_push(payloads.skip(1), payload);
        assert(payloads.push(payload).skip(1) =~= payloads.skip(1).push(payload));
        assert(spec_frames(payloads.push(payload)) =~= spec_frames(payloads) + spec_frame(payload));
    }
}

/// The receiver of a run of writes reads frames whose payloads are the
/// written ones, in order, and is left with what followed them.
pub proof fn lemma_frames_round_trip(payloads: Seq<Seq<u8>>, rest: Seq<u8>)
    requires
        forall|i: int| 0 <= i < payloads.len() ==> (#[trigger] payloads[i]).len() <= i32::MAX,
    ensures
        spec_read_frames(spec_frames(payloads) + rest, payloads.len()) == (Some(payloads), rest),
    decreases payloads.len(),
{
    if payloads.len() == 0 {
        assert(spec_frames(payloads) + rest =~= rest);
        assert(payloads =~= Seq::<Seq<u8>>::empty());
    } else {
        let tail = payloads.skip(1);
        let after = spec_frames(tail) + rest;
        assert(spec_frames(payloads) + rest =~= spec_frame(payloads[0]) + after);
        lemma_frame_round_trip(payloads[0], after);
        assert forall|i: int| 0 <= i < tail.len() implies (#[trigger] tail[i]).len()
            <= i32::MAX by {
            assert(tail[i] == payloads[i + 1]);
        }
        lemma_frames_round_trip(tail, rest);
        assert(seq![payloads[0]] + tail =~= payloads);
    }
}

/// What `read_frame_id` returns and leaves in the stream: the packet id
/// that leads the next frame, and the bytes of the frame after the id.
pub open spec fn spec_read_frame_id(stream: Seq<u8>) -> (
    Result<(i32, Seq<u8>), VarIntError>,
    Seq<u8>,
) {
    let (frame, rest) = spec_read_data(stream);
    match frame {
        Err(e) => (Err(e), rest),
        Ok(payload) => match spec_get_var_int(payload) {
            (Err(e), _) => (Err(e), rest),
            (Ok(id), body) => (Ok((id, body)), rest),
        },
    }
}

/// Takes one frame off the stream and splits it into packet id and body.
pub fn read_frame_id(stream: &mut Vec<u8>) -> (r: Result<(i32, Vec<u8>), VarIntError>)
    ensures
        match r {
            Ok(found) => spec_read_frame_id(old(stream)@).0 == Ok::<(i32, Seq<u8>), VarIntError>(
                (found.0, found.1@),
            ),
            Err(e) => spec_read_frame_id(old(stream)@).0 == Err::<(i32, Seq<u8>), VarIntError>(e),
        },
        final(stream)@ == spec_read_frame_id(old(stream)@).1,
{
    let mut data: Vec<u8> = match read_data(stream) {
        Ok(data) => data,
        Err(e) => {
            return Err(e);
        },
    };
    match get_var_int(&mut data) {
        Ok(id) => Ok((id, data)),
        Err(e) => Err(e),
    }
}

/// A frame that holds `id` and then `body`, written and read back, gives
/// both, and what followed the frame stays in the stream.
pub proof fn lemma_frame_id_round_trip(id: i32, body: Seq<u8>, rest: Seq<u8>)
    requires
        (spec_convert_var_int(id) + body).len() <= i32::MAX,
    ensures
        spec_read_frame_id(spec_frame(spec_convert_var_int(id) + body) + rest) == (
            Ok::<(i32, Seq<u8>), VarIntError>((id, body)),
            rest,
        ),
{
    lemma_frame_round_trip(spec_convert_var_int(id) + body, rest);
    lemma_var_int_round_trip(id, body);
}

/// A value that can be cut short on the wire: the readers below return
/// `RanOutOfBytes`, and leave the buffer as it was, where the bytes of the
/// value are not all there.
pub open spec fn spec_try_get_bool(data: Seq<u8>) -> (Result<bool, VarIntError>, Seq<u8>) {
    if data.len() < 1 {
        (Err(VarIntError::RanOutOfBytes), data)
    } else {
        (Ok(spec_get_bool(data)), data.skip(1))
    }
}

/// Takes a boolean off the front of `data`, if it is all there.
pub fn try_get_bool(data: &mut Vec<u8>) -> (r: Result<bool, VarIntError>)
    ensures
        r == spec_try_get_bool(old(data)@).0,
        final(data)@ == spec_try_get_bool(old(data)@).1,
{
    if data.len() < 1 {
        return Err(VarIntError::RanOutOfBytes);
    }
    Ok(get_bool(data))
}

/// What `try_get_u16` returns and leaves in the buffer: a `u16`, or
/// `RanOutOfBytes` and the buffer as it was where it is cut short.
pub open spec fn spec_try_get_u16(data: Seq<u8>) -> (Result<u16, VarIntError>, Seq<u8>) {
    if data.len() < 2 {
        (Err(VarIntError::RanOutOfBytes), data)
    } else {
        (Ok(spec_get_u16(data)), data.skip(2))
    }
}

/// Takes a `u16` off the front of `data`, if it is all there.
pub fn try_get_u16(data: &mut Vec<u8>) -> (r: Result<u16, VarIntError>)
    ensures
        r == spec_try_get_u16(old(data)@).0,
        final(data)@ == spec_try_get_u16(old(data)@).1,
{
    if data.len() < 2 {
        return Err(VarIntError::RanOutOfBytes);
    }
    Ok(get_u16(data))
}

/// What `try_get_i64` returns and leaves in the buffer: an `i64`, or
/// `RanOutOfBytes` and the buffer as it was where it is cut short.
pub open spec fn spec_try_get_i64(data: Seq<u8>) -> (Result<i64, VarIntError>, Seq<u8>) {
    if data.len() < 8 {
        (Err(VarIntError::RanOutOfBytes), data)
    } else {
        (Ok(spec_get_i64(data)), data.skip(8))
    }
}

/// Takes an `i64` off the front of `data`, if it is all there.
pub fn try_get_i64(data: &mut Vec<u8>) -> (r: Result<i64, VarIntError>)
    ensures
        r == spec_try_get_i64(old(data)@).0,
        final(data)@ == spec_try_get_i64(old(data)@).1,
{
    if data.len() < 8 {
        return Err(VarIntError::RanOutOfBytes);
    }
    Ok(get_i64(data))
}

/// What `try_get_uuid` returns and leaves in the buffer: a UUID, or
/// `RanOutOfBytes` and the buffer as it was where it is cut short.
pub open spec fn spec_try_get_uuid(data: Seq<u8>) -> (Result<u128, VarIntError>, Seq<u8>) {
    if data.len() < 16 {
        (Err(VarIntError::RanOutOfBytes), data)
    } else {
        (Ok(spec_get_uuid(data)), data.skip(16))
    }
}

/// Takes a UUID off the front of `data`, if it is all there.
pub fn try_get_uuid(data: &mut Vec<u8>) -> (r: Result<u128, VarIntError>)
    ensures
        r == spec_try_get_uuid(old(data)@).0,
        final(data)@ == spec_try_get_uuid(old(data)@).1,
{
    if data.len() < 16 {
        return Err(VarIntError::RanOutOfBytes);
    }
    Ok(get_uuid(data))
}

/// A boolean that is written is read back, where it may have been cut
/// short, as it was.
pub proof fn lemma_try_bool_round_trip(v: bool, rest: Seq<u8>)
    ensures
        spec_try_get_bool(spec_convert_bool(v) + rest) == (Ok::<bool, VarIntError>(v), rest),
{
    lemma_bool_round_trip(v, rest);
}

/// A `u16` that is written is read back, where it may have been cut short,
/// as it was.
pub proof fn lemma_try_u16_round_trip(v: u16, rest: Seq<u8>)
    ensures
        spec_try_get_u16(spec_convert_u16(v) + rest) == (Ok::<u16, VarIntError>(v), rest),
{
    lemma_u16_round_trip(v, rest);
    lemma_be_bytes_len(v as nat, 2);
}

/// An `i64` that is written is read back, where it may have been cut
/// short, as it was.
pub proof fn lemma_try_i64_round_trip(v: i64, rest: Seq<u8>)
    ensures
        spec_try_get_i64(spec_convert_i64(v) + rest) == (Ok::<i64, VarIntError>(v), rest),
{
    lemma_i64_round_trip(v, rest);
    lemma_be_bytes_len((v as u64) as nat, 8);
}

/// A UUID that is written is read back, where it may have been cut short,
/// as it was.
pub proof fn lemma_try_uuid_round_trip(v: u128, rest: Seq<u8>)
    ensures
        spec_try_get_uuid(spec_convert_uuid(v) + rest) == (Ok::<u128, VarIntError>(v), rest),
{
    lemma_uuid_round_trip(v, rest);
    lemma_be_bytes_len(v as nat, 16);
}

/// Whether a text fits the 31 bits of a length prefix.
pub open spec fn spec_string_fits(s: Seq<char>) -> bool {
    vstd::utf8::encode_utf8(s).len() <= i32::MAX
}

/// A packet of one phase and direction: an id, and a body of fields in
/// wire order.
pub trait Packet: Sized + View {
    /// The id that leads the packet's frame.
    spec fn spec_packet_id() -> i32;

    /// What `get` returns and leaves in the buffer.
    spec fn spec_get(data: Seq<u8>) -> (Result<Self::V, VarIntError>, Seq<u8>);

    /// The wire bytes of the fields, without the id.
    spec fn spec_body(v: Self::V) -> Seq<u8>;

    /// Whether every length in the packet fits the 31 bits of a length
    /// prefix.
    spec fn spec_fits(v: Self::V) -> bool;

    fn packet_id() -> (id: i32)
        ensures
            id == Self::spec_packet_id(),
    ;

    /// Reads the fields from the front of `data`.
    fn get(data: &mut Vec<u8>) -> (r: Result<Self, VarIntError>)
        ensures
            match r {
                Ok(p) => Self::spec_get(old(data)@).0 == Ok::<Self::V, VarIntError>(p@),
                Err(e) => Self::spec_get(old(data)@).0 == Err::<Self::V, VarIntError>(e),
            },
            final(data)@ == Self::spec_get(old(data)@).1,
    ;

    /// Writes the id and the fields.
    fn convert(&self) -> (data: Vec<u8>)
        ensures
            data@ == spec_convert_var_int(Self::spec_packet_id()) + Self::spec_body(self@),
    ;

    /// The fields of a packet that fits, written and read back, are
    /// unchanged, and what followed them stays in the buffer.
    proof fn lemma_round_trip(v: Self::V, rest: Seq<u8>)
        requires
            Self::spec_fits(v),
        ensures
            Self::spec_get(Self::spec_body(v) + rest) == (Ok::<Self::V, VarIntError>(v), rest),
    ;

    /// Takes one frame off the stream and reads it as this packet. A
    /// frame led by another id is refused with `InvalidPacketId`, and the
    /// frames behind it stay in the stream.
    fn read(stream: &mut Vec<u8>) -> (r: Result<Self, ProtocolError>)
        ensures
            final(stream)@ == spec_read_frame_id(old(stream)@).1,
            match spec_read_frame_id(old(stream)@).0 {
                Err(e) => r matches Err(f) && f == ProtocolError::VarInt(e),
                Ok((id, body)) => if id == Self::spec_packet_id() {
                    match Self::spec_get(body).0 {
                        Ok(v) => r matches Ok(p) && p@ == v,
                        Err(e) => r matches Err(f) && f == ProtocolError::VarInt(e),
                    }
                } else {
                    r matches Err(f) && f == ProtocolError::Packet(PacketError::InvalidPacketId)
                },
            },
    {
        let (packet_id, mut data) = match read_frame_id(stream) {
            Ok(found) => found,
            Err(e) => {
                return Err(ProtocolError::VarInt(e));
            },
        };
        if packet_id == Self::packet_id() {
            match Self::get(&mut data) {
                Ok(p) => Ok(p),
                Err(e) => Err(ProtocolError::VarInt(e)),
            }
        } else {
            Err(ProtocolError::Packet(PacketError::InvalidPacketId))
        }
    }

    /// Appends the packet to the stream as one frame.
    fn write(&self, stream: &mut Vec<u8>)
        ensures
            final(stream)@ == old(stream)@ + spec_frame(
                spec_convert_var_int(Self::spec_packet_id()) + Self::spec_body(self@),
            ),
    {
        let mut data: Vec<u8> = self.convert();
        write_data(stream, &mut data);
    }
}

/// What `read_packet` returns: the packet in the next frame, if the frame
/// is whole, is led by the packet's id and holds its fields.
pub open spec fn spec_read_packet<P: Packet>(stream: Seq<u8>) -> Result<P::V, ProtocolError> {
    match spec_read_frame_id(stream).0 {
        Err(e) => Err(ProtocolError::VarInt(e)),
        Ok((id, body)) => if id == P::spec_packet_id() {
            match P::spec_get(body).0 {
                Ok(v) => Ok(v),
                Err(e) => Err(ProtocolError::VarInt(e)),
            }
        } else {
            Err(ProtocolError::Packet(PacketError::InvalidPacketId))
        },
    }
}

/// The wire bytes of a packet in its frame.
pub open spec fn spec_write_packet<P: Packet>(v: P::V) -> Seq<u8> {
    spec_frame(spec_convert_var_int(P::spec_packet_id()) + P::spec_body(v))
}

/// Takes one frame off the stream and reads it as a packet of type `P`.
/// A frame led by another id is refused, and the frames behind it stay in
/// the stream.
pub fn read_packet<P: Packet>(stream: &mut Vec<u8>) -> (r: Result<P, ProtocolError>)
    ensures
        match r {
            Ok(p) => spec_read_packet::<P>(old(stream)@) == Ok::<P::V, ProtocolError>(p@),
            Err(e) => spec_read_packet::<P>(old(stream)@) == Err::<P::V, ProtocolError>(e),
        },
        final(stream)@ == spec_read_frame_id(old(stream)@).1,
{
    P::read(stream)
}

/// Appends the packet to the stream as one frame.
pub fn write_packet<P: Packet>(packet: &P, stream: &mut Vec<u8>)
    ensures
        final(stream)@ == old(stream)@ + spec_write_packet::<P>(packet@),
{
    packet.write(stream)
}

/// A frame led by another id than the packet's is refused with
/// `InvalidPacketId`, whatever it holds, and what followed the frame stays
/// in the stream.
pub proof fn lemma_other_id_is_refused<P: Packet>(id: i32, body: Seq<u8>, rest: Seq<u8>)
    requires
        id != P::spec_packet_id(),
        (spec_convert_var_int(id) + body).len() <= i32::MAX,
    ensures
        spec_read_packet::<P>(spec_frame(spec_convert_var_int(id) + body) + rest) == Err::<
            P::V,
            ProtocolError,
        >(ProtocolError::Packet(PacketError::InvalidPacketId)),
        spec_read_frame_id(spec_frame(spec_convert_var_int(id) + body) + rest).1 == rest,
{
    lemma_frame_id_round_trip(id, body, rest);
}

/// A packet that fits in a frame, written and read back, is unchanged,
/// and what followed its frame stays in the stream.
pub proof fn lemma_packet_round_trip<P: Packet>(v: P::V, rest: Seq<u8>)
    requires
        P::spec_fits(v),
        (spec_convert_var_int(P::spec_packet_id()) + P::spec_body(v)).len() <= i32::MAX,
    ensures
        spec_read_packet::<P>(spec_write_packet::<P>(v) + rest) == Ok::<P::V, ProtocolError>(v),
        spec_read_frame_id(spec_write_packet::<P>(v) + rest).1 == rest,
{
    lemma_frame_id_round_trip(P::spec_packet_id(), P::spec_body(v), rest);
    P::lemma_round_trip(v, Seq::empty());
    assert(P::spec_body(v) + Seq::<u8>::empty() =~= P::spec_body(v));
}

/// What reading the body of a frame as a `P` gives.
pub open spec fn spec_get_packet<P: Packet>(body: Seq<u8>) -> Result<P::V, ProtocolError> {
    match P::spec_get(body).0 {
        Ok(v) => Ok(v),
        Err(e) => Err(ProtocolError::VarInt(e)),
    }
}

/// Reads the body of a frame as a `P`.
pub fn get_packet<P: Packet>(body: &mut Vec<u8>) -> (r: Result<P, ProtocolError>)
    ensures
        match r {
            Ok(p) => spec_get_packet::<P>(old(body)@) == Ok::<P::V, ProtocolError>(p@),
            Err(e) => spec_get_packet::<P>(old(body)@) == Err::<P::V, ProtocolError>(e),
        },
{
    match P::get(body) {
        Ok(p) => Ok(p),
        Err(e) => Err(ProtocolError::VarInt(e)),
    }
}

} // verus!
