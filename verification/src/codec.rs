use vstd::prelude::*;

verus! {

/// The number of values that `width` bytes can tell apart: 256 to the power
/// `width`.
pub open spec fn radix(width: nat) -> nat
    decreases width,
{
    if width == 0 {
        1
    } else {
        256 * radix((width - 1) as nat)
    }
}

/// The `width` little-endian digits of `value` in base 256, lowest first.
pub open spec fn le_bytes(value: nat, width: nat) -> Seq<u8>
    decreases width,
{
    if width == 0 {
        Seq::empty()
    } else {
        seq![(value % 256) as u8] + le_bytes(value / 256, (width - 1) as nat)
    }
}

/// The number that the little-endian digits `bytes` stand for.
pub open spec fn le_value(bytes: Seq<u8>) -> nat
    decreases bytes.len(),
{
    if bytes.len() == 0 {
        0
    } else {
        bytes[0] as nat + 256 * le_value(bytes.drop_first())
    }
}

/// The unsigned number with the same 64 bits as `x` in two's complement.
pub open spec fn twos_complement(x: i64) -> nat {
    if x >= 0 {
        x as nat
    } else {
        (x + 0x1_0000_0000_0000_0000) as nat
    }
}

/// The signed number with the same 64 bits as `v`, for `v` below 2^64.
pub open spec fn from_twos_complement(v: nat) -> i64 {
    if v < 0x8000_0000_0000_0000 {
        v as i64
    } else {
        (v - 0x1_0000_0000_0000_0000) as i64
    }
}

/// The two bytes of a `u16` in a record.
pub open spec fn u16_bytes(x: u16) -> Seq<u8> {
    le_bytes(x as nat, 2)
}

/// The eight bytes of a `u64` in a record.
pub open spec fn u64_bytes(x: u64) -> Seq<u8> {
    le_bytes(x as nat, 8)
}

/// The eight bytes of an `i64` in a record.
pub open spec fn i64_bytes(x: i64) -> Seq<u8> {
    le_bytes(twos_complement(x), 8)
}

/// The byte of a `bool` in a record.
pub open spec fn bool_bytes(b: bool) -> Seq<u8> {
    seq![if b { 1u8 } else { 0u8 }]
}

/// The `u16` that two bytes of a record hold.
pub open spec fn u16_value(bytes: Seq<u8>) -> u16 {
    le_value(bytes) as u16
}

/// The `u64` that eight bytes of a record hold.
pub open spec fn u64_value(bytes: Seq<u8>) -> u64 {
    le_value(bytes) as u64
}

/// The `i64` that eight bytes of a record hold.
pub open spec fn i64_value(bytes: Seq<u8>) -> i64 {
    from_twos_complement(le_value(bytes))
}

/// The `bool` that a byte of a record holds, if it holds one: only 0 and 1
/// are accepted.
pub open spec fn bool_value(byte: u8) -> Option<bool> {
    if byte == 0 {
        Some(false)
    } else if byte == 1 {
        Some(true)
    } else {
        None
    }
}

/// The array that holds the first 32 bytes of `s`.
pub open spec fn bytes32_of(s: Seq<u8>) -> [u8; 32] {
    [
        s[0], s[1], s[2], s[3], s[4], s[5], s[6], s[7],
        s[8], s[9], s[10], s[11], s[12], s[13], s[14], s[15],
        s[16], s[17], s[18], s[19], s[20], s[21], s[22], s[23],
        s[24], s[25], s[26], s[27], s[28], s[29], s[30], s[31],
    ]
}

/// An array of 32 bytes and the sequence of its bytes determine each other.
pub proof fn lemma_bytes32_of(a: [u8; 32], s: Seq<u8>)
    ensures
        bytes32_of(a@) == a,
        s.len() == 32 ==> bytes32_of(s)@ == s,
{
    assert(bytes32_of(a@) =~= a);
    if s.len() == 32 {
        assert(bytes32_of(s)@ =~= s);
    }
}

/// Two, eight and fewer bytes tell apart as many values as their integer
/// types have.
pub proof fn lemma_radix_values()
    ensures
        radix(0) == 1,
        radix(1) == 0x100,
        radix(2) == 0x1_0000,
        radix(8) == 0x1_0000_0000_0000_0000,
{
    reveal_with_fuel(radix, 9);
}

/// More bytes tell apart at least as many values.
pub proof fn lemma_radix_monotonic(a: nat, b: nat)
    requires
        a <= b,
    ensures
        1 <= radix(a) <= radix(b),
    decreases b,
{
    if b == 0 {
    } else if a == b {
        lemma_radix_monotonic((a - 1) as nat, (b - 1) as nat);
    } else {
        lemma_radix_monotonic(a, (b - 1) as nat);
    }
}

/// A number is written in as many bytes as asked for.
pub proof fn lemma_le_bytes_len(value: nat, width: nat)
    ensures
        le_bytes(value, width).len() == width,
    decreases width,
{
    if width > 0 {
        lemma_le_bytes_len(value / 256, (width - 1) as nat);
    }
}

/// What bytes stand for is below the number of values that they tell apart.
pub proof fn lemma_le_value_bound(bytes: Seq<u8>)
    ensures
        le_value(bytes) < radix(bytes.len()),
    decreases bytes.len(),
{
    if bytes.len() > 0 {
        lemma_le_value_bound(bytes.drop_first());
    }
}

/// Reading back the bytes of a number that fits in them gives the number.
pub proof fn lemma_le_value_of_bytes(value: nat, width: nat)
    requires
        value < radix(width),
    ensures
        le_value(le_bytes(value, width)) == value,
    decreases width,
{
    if width > 0 {
        let rest = le_bytes(value / 256, (width - 1) as nat);
        lemma_le_value_of_bytes(value / 256, (width - 1) as nat);
        lemma_le_bytes_len(value, width);
        assert(le_bytes(value, width).drop_first() =~= rest);
    }
}

/// Writing the number that bytes stand for, in as many bytes, gives the
/// bytes.
pub proof fn lemma_le_bytes_of_value(bytes: Seq<u8>)
    ensures
        le_bytes(le_value(bytes), bytes.len()) == bytes,
    decreases bytes.len(),
{
    if bytes.len() > 0 {
        lemma_le_bytes_of_value(bytes.drop_first());
        assert(le_bytes(le_value(bytes), bytes.len()) =~= bytes);
    }
}

/// A `u16` takes two bytes and is read back from them as it was.
pub proof fn lemma_u16_round_trip(x: u16)
    ensures
        u16_bytes(x).len() == 2,
        u16_value(u16_bytes(x)) == x,
{
    lemma_radix_values();
    lemma_le_bytes_len(x as nat, 2);
    lemma_le_value_of_bytes(x as nat, 2);
}

/// A `u64` takes eight bytes and is read back from them as it was.
pub proof fn lemma_u64_round_trip(x: u64)
    ensures
        u64_bytes(x).len() == 8,
        u64_value(u64_bytes(x)) == x,
{
    lemma_radix_values();
    lemma_le_bytes_len(x as nat, 8);
    lemma_le_value_of_bytes(x as nat, 8);
}

/// An `i64` takes eight bytes and is read back from them as it was.
pub proof fn lemma_i64_round_trip(x: i64)
    ensures
        i64_bytes(x).len() == 8,
        i64_value(i64_bytes(x)) == x,
{
    lemma_radix_values();
    lemma_le_bytes_len(twos_complement(x), 8);
    lemma_le_value_of_bytes(twos_complement(x), 8);
}

/// A `bool` takes one byte and is read back from it as it was.
pub proof fn lemma_bool_round_trip(b: bool)
    ensures
        bool_bytes(b).len() == 1,
        bool_value(bool_bytes(b)[0]) == Some(b),
{
}

/// Two bytes that are read as a `u16` are the bytes of that `u16`.
pub proof fn lemma_u16_bytes_of_value(bytes: Seq<u8>)
    requires
        bytes.len() == 2,
    ensures
        u16_bytes(u16_value(bytes)) == bytes,
{
    lemma_radix_values();
    lemma_le_value_bound(bytes);
    lemma_le_bytes_of_value(bytes);
}

/// Eight bytes that are read as a `u64` are the bytes of that `u64`.
pub proof fn lemma_u64_bytes_of_value(bytes: Seq<u8>)
    requires
        bytes.len() == 8,
    ensures
        u64_bytes(u64_value(bytes)) == bytes,
{
    lemma_radix_values();
    lemma_le_value_bound(bytes);
    lemma_le_bytes_of_value(bytes);
}

/// Eight bytes that are read as an `i64` are the bytes of that `i64`.
pub proof fn lemma_i64_bytes_of_value(bytes: Seq<u8>)
    requires
        bytes.len() == 8,
    ensures
        i64_bytes(i64_value(bytes)) == bytes,
{
    lemma_radix_values();
    lemma_le_value_bound(bytes);
    lemma_le_bytes_of_value(bytes);
}

/// A byte that is read as a `bool` is the byte of that `bool`.
pub proof fn lemma_bool_bytes_of_value(byte: u8)
    requires
        bool_value(byte) is Some,
    ensures
        bool_bytes(bool_value(byte)->0) == seq![byte],
{
    assert(bool_bytes(bool_value(byte)->0) =~= seq![byte]);
}

/// Appends the `width` lowest little-endian bytes of `value` to `out`.
fn write_le(out: &mut Vec<u8>, value: u64, width: usize)
    requires
        width <= 8,
    ensures
        final(out)@ == old(out)@ + le_bytes(value as nat, width as nat),
{
    let ghost start = out@;
    let mut rest: u64 = value;
    let mut i: usize = 0;
    while i < width
        invariant
            i <= width,
            out@ + le_bytes(rest as nat, (width - i) as nat) == start + le_bytes(
                value as nat,
                width as nat,
            ),
        decreases width - i,
    {
        let digit: u8 = (rest % 256) as u8;
        proof {
            assert(out@.push(digit) + le_bytes((rest / 256) as nat, (width - i - 1) as nat)
                =~= out@ + le_bytes(rest as nat, (width - i) as nat));
        }
        out.push(digit);
        rest = rest / 256;
        i += 1;
    }
    proof {
        assert(out@ + le_bytes(rest as nat, 0) =~= out@);
    }
}

/// Reads the number that the `width` bytes of `data` from `at` on stand for.
fn read_le(data: &[u8], at: usize, width: usize) -> (value: u64)
    requires
        width <= 8,
        at + width <= data.len(),
    ensures
        value == le_value(data@.subrange(at as int, at + width)),
{
    let mut acc: u64 = 0;
    let mut i: usize = width;
    while i > 0
        invariant
            i <= width <= 8,
            at + width <= data.len(),
            acc == le_value(data@.subrange(at + i, at + width)),
            acc < radix((width - i) as nat),
        decreases i,
    {
        i -= 1;
        proof {
            let tail = data@.subrange(at + i, at + width);
            assert(tail.drop_first() =~= data@.subrange(at + i + 1, at + width));
            lemma_radix_monotonic((width - i) as nat, 8);
            lemma_radix_values();
        }
        acc = acc * 256 + data[at + i] as u64;
    }
    acc
}

/// Appends the two bytes of `x` to `out`.
pub fn write_u16(out: &mut Vec<u8>, x: u16)
    ensures
        final(out)@ == old(out)@ + u16_bytes(x),
{
    write_le(out, x as u64, 2);
}

/// Appends the eight bytes of `x` to `out`.
pub fn write_u64(out: &mut Vec<u8>, x: u64)
    ensures
        final(out)@ == old(out)@ + u64_bytes(x),
{
    write_le(out, x, 8);
}

/// Appends the eight bytes of `x` to `out`.
pub fn write_i64(out: &mut Vec<u8>, x: i64)
    ensures
        final(out)@ == old(out)@ + i64_bytes(x),
{
    let bits: u64 = if x >= 0 {
        x as u64
    } else {
        u64::MAX - ((-(x + 1)) as u64)
    };
    write_le(out, bits, 8);
}

/// Appends the byte of `b` to `out`.
pub fn write_bool(out: &mut Vec<u8>, b: bool)
    ensures
        final(out)@ == old(out)@ + bool_bytes(b),
{
    let byte: u8 = if b { 1 } else { 0 };
    proof {
        assert(out@.push(byte) =~= out@ + bool_bytes(b));
    }
    out.push(byte);
}

/// Appends `bytes` to `out`.
pub fn write_bytes(out: &mut Vec<u8>, bytes: &[u8])
    ensures
        final(out)@ == old(out)@ + bytes@,
{
    let ghost start = out@;
    let mut i: usize = 0;
    while i < bytes.len()
        invariant
            i <= bytes.len(),
            out@ == start + bytes@.subrange(0, i as int),
        decreases bytes.len() - i,
    {
        proof {
            assert(out@.push(bytes@[i as int]) =~= start + bytes@.subrange(0, i + 1));
        }
        out.push(bytes[i]);
        i += 1;
    }
    proof {
        assert(bytes@.subrange(0, i as int) =~= bytes@);
    }
}

/// Appends `count` zero bytes to `out`.
pub fn write_zeros(out: &mut Vec<u8>, count: usize)
    ensures
        final(out)@ == old(out)@ + Seq::new(count as nat, |i: int| 0u8),
{
    let ghost start = out@;
    let mut i: usize = 0;
    while i < count
        invariant
            i <= count,
            out@ == start + Seq::new(i as nat, |j: int| 0u8),
        decreases count - i,
    {
        proof {
            assert(out@.push(0u8) =~= start + Seq::new((i + 1) as nat, |j: int| 0u8));
        }
        out.push(0u8);
        i += 1;
    }
}

/// Reads the `u16` that the two bytes of `data` from `at` on hold.
pub fn read_u16(data: &[u8], at: usize) -> (x: u16)
    requires
        at + 2 <= data.len(),
    ensures
        x == u16_value(data@.subrange(at as int, at + 2)),
{
    proof {
        lemma_le_value_bound(data@.subrange(at as int, at + 2));
        lemma_radix_values();
    }
    read_le(data, at, 2) as u16
}

/// Reads the `u64` that the eight bytes of `data` from `at` on hold.
pub fn read_u64(data: &[u8], at: usize) -> (x: u64)
    requires
        at + 8 <= data.len(),
    ensures
        x == u64_value(data@.subrange(at as int, at + 8)),
{
    read_le(data, at, 8)
}

/// Reads the `i64` that the eight bytes of `data` from `at` on hold.
pub fn read_i64(data: &[u8], at: usize) -> (x: i64)
    requires
        at + 8 <= data.len(),
    ensures
        x == i64_value(data@.subrange(at as int, at + 8)),
{
    let bits: u64 = read_le(data, at, 8);
    if bits < 0x8000_0000_0000_0000 {
        bits as i64
    } else {
        -((u64::MAX - bits) as i64) - 1
    }
}

/// Reads the `bool` that the byte of `data` at `at` holds, if it holds one.
pub fn read_bool(data: &[u8], at: usize) -> (b: Option<bool>)
    requires
        at < data.len(),
    ensures
        b == bool_value(data@[at as int]),
{
    let byte: u8 = data[at];
    if byte == 0 {
        Some(false)
    } else if byte == 1 {
        Some(true)
    } else {
        None
    }
}

/// Reads the 32 bytes of `data` from `at` on.
pub fn read_bytes32(data: &[u8], at: usize) -> (bytes: [u8; 32])
    requires
        at + 32 <= data.len(),
    ensures
        bytes == bytes32_of(data@.subrange(at as int, at + 32)),
{
    let mut bytes: [u8; 32] = [0u8; 32];
    let mut i: usize = 0;
    while i < 32
        invariant
            i <= 32,
            at + 32 <= data.len(),
            forall|j: int| 0 <= j < i ==> bytes@[j] == data@[at + j],
        decreases 32 - i,
    {
        bytes[i] = data[at + i];
        i += 1;
    }
    proof {
        assert(bytes =~= bytes32_of(data@.subrange(at as int, at + 32)));
    }
    bytes
}

/// Tells whether `data` begins with the eight bytes of `tag`.
pub fn has_tag(data: &[u8], tag: &[u8; 8]) -> (r: bool)
    requires
        data.len() >= 8,
    ensures
        r == (data@.subrange(0, 8) == tag@),
{
    let mut i: usize = 0;
    while i < 8
        invariant
            i <= 8,
            data.len() >= 8,
            forall|j: int| 0 <= j < i ==> data@[j] == tag@[j],
        decreases 8 - i,
    {
        if data[i] != tag[i] {
            proof {
                assert(data@.subrange(0, 8)[i as int] != tag@[i as int]);
            }
            return false;
        }
        i += 1;
    }
    proof {
        assert(data@.subrange(0, 8) =~= tag@);
    }
    true
}

/// Tells whether two arrays of 32 bytes hold the same bytes.
pub fn bytes32_eq(a: &[u8; 32], b: &[u8; 32]) -> (r: bool)
    ensures
        r == (*a == *b),
{
    let mut i: usize = 0;
    while i < 32
        invariant
            i <= 32,
            forall|j: int| 0 <= j < i ==> a@[j] == b@[j],
        decreases 32 - i,
    {
        if a[i] != b[i] {
            return false;
        }
        i += 1;
    }
    proof {
        assert(*a =~= *b);
    }
    true
}

} // verus!
