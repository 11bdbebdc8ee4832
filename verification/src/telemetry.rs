//! Packets of flight data as a simulator sends them.
//!
//! A packet starts with the four bytes `DATA` and one more byte. Groups of 36 bytes follow:
//! a byte that numbers the group, three bytes of padding, and eight values of four bytes
//! each, lowest byte first.

use vstd::prelude::*;
use vstd::slice::slice_subrange;

verus! {

/// The bytes of a group.
pub const GROUP_SIZE: usize = 36;

/// The values in a group.
pub const XPLANE_UNITS_PER_PACKET: usize = 8;

/// The bytes of a value.
pub const XPLANE_UNIT_SIZE: usize = 4;

/// The value of four bytes read as a little-endian unsigned integer.
pub open spec fn le_u32(b0: u8, b1: u8, b2: u8, b3: u8) -> int {
    b0 as int + 256 * (b1 as int) + 65536 * (b2 as int) + 16777216 * (b3 as int)
}

/// Reads the first four bytes of `array` as a little-endian `u32`.
pub fn bytes_to_u32_le(array: &[u8]) -> (r: u32)
    requires
        array@.len() >= 4,
    ensures
        r as int == le_u32(array@[0], array@[1], array@[2], array@[3]),
{
    let b0: u32 = array[0] as u32;
    let b1: u32 = array[1] as u32;
    let b2: u32 = array[2] as u32;
    let b3: u32 = array[3] as u32;
    assert((b1 << 8) == b1 * 256 && (b2 << 16) == b2 * 65536 && (b3 << 24) == b3 * 16777216 && (b0 << 0)
        == b0) by (bit_vector)
        requires
            b0 < 256 && b1 < 256 && b2 < 256 && b3 < 256,
    ;
    (b0 << 0) + (b1 << 8) + (b2 << 16) + (b3 << 24)
}

/// One value of a packet.
#[derive(Clone, Copy, Debug, PartialEq, Eq, Structural)]
pub struct Reading {
    /// The number of the group in which the value stands.
    pub group: u32,
    /// The place of the value in its group.
    pub index: u32,
    /// The four bytes of the value as a number; they hold a 32-bit floating-point number.
    pub bits: u32,
}

/// Whether a buffer starts as a packet does.
pub open spec fn has_header(buffer: Seq<u8>) -> bool {
    buffer.len() >= 4 && buffer[0] == 68 && buffer[1] == 65 && buffer[2] == 84 && buffer[3] == 65
}

/// The number of groups that are read from a packet of `received` bytes: groups are read
/// until one ends at or after the last byte received, and one is read in any case.
pub open spec fn group_count(received: int) -> int {
    if received <= 41 {
        1
    } else {
        (received - 5 + 35) / 36
    }
}

/// The value at place `j` among all the values of a packet.
pub open spec fn reading_at(buffer: Seq<u8>, j: int) -> Reading {
    let start = 5 + 36 * (j / 8);
    let at = start + 4 + 4 * (j % 8);
    Reading {
        group: buffer[start] as u32,
        index: (j % 8) as u32,
        bits: le_u32(buffer[at], buffer[at + 1], buffer[at + 2], buffer[at + 3]) as u32,
    }
}

/// The values of the packet in a buffer of which `received` bytes were received, group by
/// group. Bytes of the buffer after the last one received are read as they are. Nothing
/// where the buffer does not start as a packet does or is too short for the groups.
pub open spec fn decoded(buffer: Seq<u8>, received: int) -> Option<Seq<Reading>> {
    if has_header(buffer) && 5 + 36 * group_count(received) <= buffer.len() {
        Some(Seq::new((8 * group_count(received)) as nat, |j: int| reading_at(buffer, j)))
    } else {
        None
    }
}

/// The last among the first `upto` values that stands in group `group` at place `index`.
pub open spec fn latest(readings: Seq<Reading>, group: u32, index: u32, upto: int) -> Option<u32>
    decreases upto,
{
    if upto <= 0 {
        None
    } else if readings[upto - 1].group == group && readings[upto - 1].index == index {
        Some(readings[upto - 1].bits)
    } else {
        latest(readings, group, index, upto - 1)
    }
}

/// Reads the values of a packet from the buffer into which it was received.
pub fn decode_packet(buffer: &[u8], received: usize) -> (r: Option<Vec<Reading>>)
    ensures
        match r {
            Some(readings) => decoded(buffer@, received as int) == Some(readings@),
            None => decoded(buffer@, received as int) is None,
        },
{
    if buffer.len() < 4 {
        return None;
    }
    if !(buffer[0] == 68 && buffer[1] == 65 && buffer[2] == 84 && buffer[3] == 65) {
        return None;
    }
    let mut ret: Vec<Reading> = Vec::new();
    let mut cursor: usize = 5;
    let mut groups: usize = 0;
    loop
        invariant_except_break
            cursor == 5 + 36 * groups,
            groups == 0 || cursor < received,
            groups < group_count(received as int),
        invariant
            has_header(buffer@),
            cursor <= buffer@.len() + 36,
            ret@.len() == 8 * groups,
            forall|j: int| 0 <= j < ret@.len() ==> ret@[j] == reading_at(buffer@, j),
        ensures
            groups == group_count(received as int),
            5 + 36 * groups <= buffer@.len(),
        decreases buffer@.len() + 72 - cursor,
    {
        if buffer.len() < GROUP_SIZE || cursor > buffer.len() - GROUP_SIZE {
            return None;
        }
        let id = buffer[cursor] as u32;
        cursor = cursor + XPLANE_UNIT_SIZE;
        let mut i: usize = 0;
        while i < XPLANE_UNITS_PER_PACKET
            invariant
                i <= 8,
                buffer@.len() <= usize::MAX,
                cursor == 5 + 36 * groups + 4 + 4 * i,
                5 + 36 * groups + 36 <= buffer@.len(),
                id == buffer@[5 + 36 * groups] as u32,
                ret@.len() == 8 * groups + i,
                forall|j: int| 0 <= j < ret@.len() ==> ret@[j] == reading_at(buffer@, j),
            decreases 8 - i,
        {
            assert(i < 8 && XPLANE_UNIT_SIZE == 4);
            let bits = bytes_to_u32_le(slice_subrange(buffer, cursor, cursor + XPLANE_UNIT_SIZE));
            ret.push(Reading { group: id, index: i as u32, bits });
            cursor = cursor + XPLANE_UNIT_SIZE;
            i = i + 1;
        }
        groups = groups + 1;
        if cursor >= received {
            break ;
        }
    }
    assert(ret@ =~= Seq::new((8 * group_count(received as int)) as nat, |j: int| reading_at(buffer@, j)));
    Some(ret)
}

/// The value that a packet holds last for group `group` at place `index`.
pub fn lookup(readings: &Vec<Reading>, group: u32, index: u32) -> (r: Option<u32>)
    ensures
        r == latest(readings@, group, index, readings@.len() as int),
{
    let mut i: usize = readings.len();
    while i > 0
        invariant
            i <= readings.len(),
            latest(readings@, group, index, readings@.len() as int) == latest(readings@, group, index, i as int),
        decreases i,
    {
        i = i - 1;
        if readings[i].group == group && readings[i].index == index {
            return Some(readings[i].bits);
        }
    }
    None
}

} // verus!
