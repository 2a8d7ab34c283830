use vstd::prelude::*;

verus! {

/// The number of values that `width` bytes can tell apart: 256 to the power
/// `width`.
pub open spec fn range_limit(width: nat) -> nat
    decreases width,
{
    if width == 0 {
        1
    } else {
        256 * range_limit((width - 1) as nat)
    }
}

/// `value` in `width` bytes, the least significant byte first. A value that
/// `width` bytes cannot hold loses its upper part.
pub open spec fn le_bytes(value: nat, width: nat) -> Seq<u8>
    decreases width,
{
    if width == 0 {
        Seq::empty()
    } else {
        seq![(value % 256) as u8] + le_bytes(value / 256, (width - 1) as nat)
    }
}

/// The number that `bytes` hold, the least significant byte first.
pub open spec fn le_value(bytes: Seq<u8>) -> nat
    decreases bytes.len(),
{
    if bytes.len() == 0 {
        0
    } else {
        bytes[0] as nat + 256 * le_value(bytes.drop_first())
    }
}

/// Whether `value` lies in the range of a signed integer of `width` bytes.
pub open spec fn fits_signed(value: int, width: nat) -> bool {
    -(range_limit(width) as int) <= 2 * value < range_limit(width)
}

/// The two's complement of `value` in `width` bytes, as a number.
pub open spec fn to_unsigned(value: int, width: nat) -> nat {
    if value >= 0 {
        value as nat
    } else {
        (value + range_limit(width)) as nat
    }
}

/// The signed integer whose two's complement in `width` bytes is `value`.
pub open spec fn to_signed(value: nat, width: nat) -> int {
    if 2 * value < range_limit(width) {
        value as int
    } else {
        value - range_limit(width)
    }
}

/// A signed integer in `width` bytes: two's complement, the least
/// significant byte first.
pub open spec fn signed_le_bytes(value: int, width: nat) -> Seq<u8> {
    le_bytes(to_unsigned(value, width), width)
}

/// The signed integer that `bytes` hold.
pub open spec fn signed_le_value(bytes: Seq<u8>) -> int {
    to_signed(le_value(bytes), bytes.len())
}

/// `memory` with `bytes` laid over it from index `at` on.
pub open spec fn splice(memory: Seq<u8>, at: int, bytes: Seq<u8>) -> Seq<u8> {
    Seq::new(
        memory.len(),
        |i: int|
            if at <= i < at + bytes.len() {
                bytes[i - at]
            } else {
                memory[i]
            },
    )
}

/// The order in which the bytes of a number lie in memory.
#[derive(Clone, Copy, Debug, PartialEq, Eq, Structural)]
pub enum ByteOrder {
    /// The least significant byte first.
    LittleEndian,
    /// The most significant byte first.
    BigEndian,
}

/// `u16::from_ne_bytes`: the number that the machine reads from two bytes
/// in the order of its memory. Nothing is claimed of it.
#[verifier::external_body]
fn native_number(first: u8, second: u8) -> (number: u16) {
    u16::from_ne_bytes([first, second])
}

impl ByteOrder {
    /// The order of the machine that runs this: the order in which it reads
    /// the bytes one and zero. Which of the two comes out is the machine's
    /// to say; `from_probe` says what is made of each number that it reads.
    pub fn native() -> (order: ByteOrder) {
        Self::from_probe(native_number(1, 0))
    }

    /// The order of a machine that reads `number` from the bytes one and
    /// zero: with the least significant byte first they are the number one.
    pub open spec fn spec_from_probe(number: u16) -> ByteOrder {
        if number == 1 {
            ByteOrder::LittleEndian
        } else {
            ByteOrder::BigEndian
        }
    }

    pub fn from_probe(number: u16) -> (order: ByteOrder)
        ensures
            order == Self::spec_from_probe(number),
    {
        if number == 1 {
            ByteOrder::LittleEndian
        } else {
            ByteOrder::BigEndian
        }
    }
}

/// Bytes that stand least significant first, put in `order`; and bytes in
/// `order`, put least significant first.
pub open spec fn arrange(bytes: Seq<u8>, order: ByteOrder) -> Seq<u8> {
    match order {
        ByteOrder::LittleEndian => bytes,
        ByteOrder::BigEndian => bytes.reverse(),
    }
}

/// A signed integer in `width` bytes, two's complement, in `order`.
pub open spec fn int_bytes(value: int, width: nat, order: ByteOrder) -> Seq<u8> {
    arrange(signed_le_bytes(value, width), order)
}

/// The signed integer that bytes in `order` hold.
pub open spec fn int_value(bytes: Seq<u8>, order: ByteOrder) -> int {
    signed_le_value(arrange(bytes, order))
}

/// The index in memory of the byte of significance `j`, for a number of
/// `width` bytes that starts at `at`.
pub open spec fn place(at: int, width: int, j: int, order: ByteOrder) -> int {
    match order {
        ByteOrder::LittleEndian => at + j,
        ByteOrder::BigEndian => at + width - 1 - j,
    }
}

/// Arranging twice gives the bytes back.
pub proof fn lemma_arrange_twice(bytes: Seq<u8>, order: ByteOrder)
    ensures
        arrange(bytes, order).len() == bytes.len(),
        arrange(arrange(bytes, order), order) == bytes,
{
    assert(arrange(arrange(bytes, order), order) =~= bytes);
}

pub proof fn lemma_range_limit_values()
    ensures
        range_limit(0) == 1,
        range_limit(1) == 0x100,
        range_limit(2) == 0x1_0000,
        range_limit(3) == 0x100_0000,
        range_limit(4) == 0x1_0000_0000,
        range_limit(5) == 0x100_0000_0000,
        range_limit(6) == 0x1_0000_0000_0000,
        range_limit(7) == 0x100_0000_0000_0000,
        range_limit(8) == 0x1_0000_0000_0000_0000,
{
    reveal_with_fuel(range_limit, 9);
}

pub proof fn lemma_le_bytes_len(value: nat, width: nat)
    ensures
        le_bytes(value, width).len() == width,
    decreases width,
{
    if width > 0 {
        lemma_le_bytes_len(value / 256, (width - 1) as nat);
    }
}

/// The bytes of a number that fits give the number back.
pub proof fn lemma_le_round_trip(value: nat, width: nat)
    requires
        value < range_limit(width),
    ensures
        le_value(le_bytes(value, width)) == value,
    decreases width,
{
    if width > 0 {
        let rest = le_bytes(value / 256, (width - 1) as nat);
        lemma_le_round_trip(value / 256, (width - 1) as nat);
        assert(le_bytes(value, width).drop_first() =~= rest);
    }
}

pub proof fn lemma_le_value_bound(bytes: Seq<u8>)
    ensures
        le_value(bytes) < range_limit(bytes.len()),
    decreases bytes.len(),
{
    if bytes.len() > 0 {
        lemma_le_value_bound(bytes.drop_first());
    }
}

/// A signed integer that fits comes back from its bytes, in either order.
pub proof fn lemma_signed_round_trip(value: int, width: nat, order: ByteOrder)
    requires
        fits_signed(value, width),
    ensures
        int_bytes(value, width, order).len() == width,
        int_value(int_bytes(value, width, order), order) == value,
{
    lemma_le_bytes_len(to_unsigned(value, width), width);
    lemma_le_round_trip(to_unsigned(value, width), width);
    lemma_arrange_twice(signed_le_bytes(value, width), order);
}

/// What was laid over a memory is read back from the same place, and the
/// memory keeps its length.
pub proof fn lemma_splice_read(memory: Seq<u8>, at: int, bytes: Seq<u8>)
    requires
        0 <= at,
        at + bytes.len() <= memory.len(),
    ensures
        splice(memory, at, bytes).len() == memory.len(),
        splice(memory, at, bytes).subrange(at, at + bytes.len()) == bytes,
{
    assert(splice(memory, at, bytes).subrange(at, at + bytes.len()) =~= bytes);
}

/// The largest number that `width` bytes hold.
pub(crate) fn max_uint(width: usize) -> (max: u64)
    requires
        width <= 8,
    ensures
        max == range_limit(width as nat) - 1,
{
    proof {
        lemma_range_limit_values();
    }
    if width == 0 {
        0
    } else if width == 1 {
        0xff
    } else if width == 2 {
        0xffff
    } else if width == 3 {
        0xff_ffff
    } else if width == 4 {
        0xffff_ffff
    } else if width == 5 {
        0xff_ffff_ffff
    } else if width == 6 {
        0xffff_ffff_ffff
    } else if width == 7 {
        0xff_ffff_ffff_ffff
    } else {
        0xffff_ffff_ffff_ffff
    }
}

/// Writes `value` into `width` bytes of `data` from index `at` on, in
/// `order`.
pub(crate) fn write_uint(data: &mut Vec<u8>, at: usize, width: usize, value: u64, order: ByteOrder)
    requires
        width <= 8,
        at + width <= old(data)@.len(),
    ensures
        final(data)@ == splice(
            old(data)@,
            at as int,
            arrange(le_bytes(value as nat, width as nat), order),
        ),
{
    let len = data.len();
    let ghost before = data@;
    let ghost target = le_bytes(value as nat, width as nat);
    proof {
        lemma_le_bytes_len(value as nat, width as nat);
        assert(target.subrange(0, width as int) =~= target);
    }
    let mut rest = value;
    let mut i: usize = 0;
    while i < width
        invariant
            i <= width <= 8,
            at + width <= len,
            len == before.len(),
            data@.len() == before.len(),
            target == le_bytes(value as nat, width as nat),
            target.len() == width,
            target.subrange(i as int, width as int) == le_bytes(rest as nat, (width - i) as nat),
            forall|j: int|
                0 <= j < i ==> data@[place(at as int, width as int, j, order)] == #[trigger] target[j],
            forall|k: int| 0 <= k < len && !(at <= k < at + width) ==> data@[k] == before[k],
        decreases width - i,
    {
        let index = match order {
            ByteOrder::LittleEndian => at + i,
            ByteOrder::BigEndian => at + (width - 1 - i),
        };
        proof {
            let suffix = target.subrange(i as int, width as int);
            assert(suffix[0] == target[i as int]);
            assert(suffix.drop_first() =~= target.subrange(i as int + 1, width as int));
            lemma_le_bytes_len((rest / 256) as nat, (width - i - 1) as nat);
            assert(le_bytes(rest as nat, (width - i) as nat).drop_first() =~= le_bytes(
                (rest / 256) as nat,
                (width - i - 1) as nat,
            ));
        }
        data.set(index, (rest % 256) as u8);
        rest = rest / 256;
        i = i + 1;
    }
    proof {
        let arranged = arrange(target, order);
        assert(data@ =~= splice(before, at as int, arranged)) by {
            assert forall|k: int| 0 <= k < before.len() implies data@[k] == splice(
                before,
                at as int,
                arranged,
            )[k] by {
                if at <= k < at + width {
                    let j = match order {
                        ByteOrder::LittleEndian => k - at,
                        ByteOrder::BigEndian => width - 1 - (k - at),
                    };
                    assert(data@[place(at as int, width as int, j, order)] == target[j]);
                }
            }
        }
    }
}

/// Reads the number that `width` bytes of `data` hold in `order` from index
/// `at` on.
pub(crate) fn read_uint(data: &Vec<u8>, at: usize, width: usize, order: ByteOrder) -> (value: u64)
    requires
        width <= 8,
        at + width <= data@.len(),
    ensures
        value == le_value(arrange(data@.subrange(at as int, at + width), order)),
{
    let len = data.len();
    let ghost arranged = arrange(data@.subrange(at as int, at + width), order);
    let mut value: u64 = 0;
    let mut i: usize = width;
    assert(arranged.subrange(width as int, width as int) =~= Seq::<u8>::empty());
    while i > 0
        invariant
            i <= width <= 8,
            at + width <= len,
            len == data@.len(),
            arranged == arrange(data@.subrange(at as int, at + width), order),
            arranged.len() == width,
            value == le_value(arranged.subrange(i as int, width as int)),
        decreases i,
    {
        i = i - 1;
        let index = match order {
            ByteOrder::LittleEndian => at + i,
            ByteOrder::BigEndian => at + (width - 1 - i),
        };
        proof {
            let read = arranged.subrange(i as int + 1, width as int);
            lemma_le_value_bound(read);
            lemma_range_limit_values();
            assert(arranged.subrange(i as int, width as int).drop_first() =~= read);
            assert(arranged[i as int] == data@[index as int]);
        }
        value = value * 256 + data[index] as u64;
    }
    assert(arranged.subrange(0, width as int) =~= arranged);
    value
}

/// Writes a signed integer into `width` bytes of `data` from index `at` on,
/// in `order`.
pub(crate) fn write_int(data: &mut Vec<u8>, at: usize, width: usize, value: i64, order: ByteOrder)
    requires
        1 <= width <= 8,
        at + width <= old(data)@.len(),
        fits_signed(value as int, width as nat),
    ensures
        final(data)@ == splice(old(data)@, at as int, int_bytes(value as int, width as nat, order)),
{
    let max = max_uint(width);
    let unsigned: u64 = if value >= 0 {
        value as u64
    } else {
        max - ((-(value + 1)) as u64)
    };
    write_uint(data, at, width, unsigned, order);
}

/// Reads the signed integer that `width` bytes of `data` hold in `order`
/// from index `at` on.
pub(crate) fn read_int(data: &Vec<u8>, at: usize, width: usize, order: ByteOrder) -> (value: i64)
    requires
        1 <= width <= 8,
        at + width <= data@.len(),
    ensures
        value == int_value(data@.subrange(at as int, at + width), order),
{
    let max = max_uint(width);
    let unsigned = read_uint(data, at, width, order);
    proof {
        lemma_arrange_twice(data@.subrange(at as int, at + width), order);
        lemma_le_value_bound(arrange(data@.subrange(at as int, at + width), order));
        lemma_range_limit_values();
    }
    if unsigned <= max / 2 {
        unsigned as i64
    } else {
        -((max - unsigned) as i64) - 1
    }
}

} // verus!
