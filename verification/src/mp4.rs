//! Reading the movie duration out of an MP4 file's box structure.
use vstd::prelude::*;

verus! {

/// The big-endian number in the four bytes at `off`.
pub open spec fn be_u32(b: Seq<u8>, off: int) -> int {
    b[off] * 0x100_0000 + b[off + 1] * 0x1_0000 + b[off + 2] * 0x100 + b[off + 3]
}

/// The big-endian number in the eight bytes at `off`.
pub open spec fn be_u64(b: Seq<u8>, off: int) -> int {
    be_u32(b, off) * 0x1_0000_0000 + be_u32(b, off + 4)
}

/// The four-character type of the `moov` box.
pub open spec fn moov_name() -> Seq<u8> {
    seq![0x6du8, 0x6fu8, 0x6fu8, 0x76u8]
}

/// The four-character type of the `mvhd` box.
pub open spec fn mvhd_name() -> Seq<u8> {
    seq![0x6du8, 0x76u8, 0x68u8, 0x64u8]
}

/// Walks the boxes that lie one after another from `cursor` up to `end` and gives the
/// payload start and end of the first one of type `name`. A box begins with its size
/// (32 bits; 1 means that a 64-bit size follows, 0 that the box runs to `end`) and
/// its type. A box that is shorter than its header, or that reaches past `end`, or a
/// header that is cut off, ends the walk with nothing found.
pub open spec fn child_box(b: Seq<u8>, cursor: int, end: int, name: Seq<u8>) -> Option<(int, int)>
    decreases end - cursor,
{
    if cursor < 0 || cursor + 8 > end || cursor + 8 > b.len() {
        None
    } else {
        let size = be_u32(b, cursor);
        let header: int = if size == 1 { 16 } else { 8 };
        if size == 1 && cursor + 16 > b.len() {
            None
        } else {
            let box_size = if size == 1 {
                be_u64(b, cursor + 8)
            } else if size == 0 {
                end - cursor
            } else {
                size
            };
            if box_size < header || cursor + box_size > end {
                None
            } else if b.subrange(cursor + 4, cursor + 8) == name {
                Some((cursor + header, cursor + box_size))
            } else {
                child_box(b, cursor + box_size, end, name)
            }
        }
    }
}

/// Milliseconds of `duration` ticks at `timescale` ticks per second, rounded down,
/// where the computation fits the 64-bit arithmetic it is done in.
pub open spec fn ticks_to_ms(timescale: int, duration: int) -> Option<int> {
    if timescale == 0 || duration * 1000 > u64::MAX {
        None
    } else if duration * 1000 / timescale > i64::MAX {
        None
    } else {
        Some(duration * 1000 / timescale)
    }
}

/// The duration that a movie header (`mvhd`) payload declares: version 0 keeps the
/// timescale and duration as 32-bit numbers at 12 and 16, version 1 keeps them at 20
/// (32 bits) and 24 (64 bits).
pub open spec fn mvhd_duration(p: Seq<u8>) -> Option<int> {
    if p.len() == 0 {
        None
    } else if p[0] == 0 {
        if p.len() < 20 {
            None
        } else {
            ticks_to_ms(be_u32(p, 12), be_u32(p, 16))
        }
    } else if p[0] == 1 {
        if p.len() < 32 {
            None
        } else {
            ticks_to_ms(be_u32(p, 20), be_u64(p, 24))
        }
    } else {
        None
    }
}

/// The duration of an MP4 file: that of the movie header inside the top-level `moov` box.
pub open spec fn mp4_duration(b: Seq<u8>) -> Option<int> {
    match child_box(b, 0, b.len() as int, moov_name()) {
        Some((ps, e)) => match child_box(b, ps, e, mvhd_name()) {
            Some((hs, he)) => mvhd_duration(b.subrange(hs, he)),
            None => None,
        },
        None => None,
    }
}

/// Where a box's payload starts and where the box ends, as byte offsets.
#[derive(Debug, Clone, Copy, PartialEq, Eq)]
pub struct Mp4Box {
    pub payload_start: usize,
    pub end: usize,
}

pub fn read_u32(bytes: &[u8], offset: usize) -> (r: Option<u32>)
    ensures
        r == (if offset + 4 <= bytes@.len() {
            Some(be_u32(bytes@, offset as int) as u32)
        } else {
            None::<u32>
        }),
        r matches Some(v) ==> v == be_u32(bytes@, offset as int),
{
    if offset > bytes.len() || bytes.len() - offset < 4 {
        return None;
    }
    let v: u32 = (bytes[offset] as u32) * 0x100_0000 + (bytes[offset + 1] as u32) * 0x1_0000
        + (bytes[offset + 2] as u32) * 0x100 + (bytes[offset + 3] as u32);
    Some(v)
}

pub fn read_u64(bytes: &[u8], offset: usize) -> (r: Option<u64>)
    ensures
        r == (if offset + 8 <= bytes@.len() {
            Some(be_u64(bytes@, offset as int) as u64)
        } else {
            None::<u64>
        }),
        r matches Some(v) ==> v == be_u64(bytes@, offset as int),
{
    if offset > bytes.len() || bytes.len() - offset < 8 {
        return None;
    }
    let hi = read_u32(bytes, offset).unwrap();
    let lo = read_u32(bytes, offset + 4).unwrap();
    let v: u64 = (hi as u64) * 0x1_0000_0000 + (lo as u64);
    Some(v)
}

/// Finds the first box of type `name` among the boxes from `start` to `end`.
pub fn find_mp4_child_box(bytes: &[u8], start: usize, end: usize, name: &[u8; 4]) -> (r: Option<Mp4Box>)
    ensures
        r is None <==> child_box(bytes@, start as int, end as int, name@) is None,
        r matches Some(bx) ==> child_box(bytes@, start as int, end as int, name@) == Some(
            (bx.payload_start as int, bx.end as int),
        ) && start <= bx.payload_start <= bx.end <= end,
{
    let mut cursor: usize = start;
    while cursor <= end && end - cursor >= 8
        invariant
            start <= cursor,
            child_box(bytes@, cursor as int, end as int, name@) == child_box(
                bytes@,
                start as int,
                end as int,
                name@,
            ),
        decreases end - cursor,
    {
        let size = match read_u32(bytes, cursor) {
            Some(s) => s,
            None => return None,
        };
        if cursor + 8 > bytes.len() {
            return None;
        }
        let mut header_size: u64 = 8;
        let box_size: u64 = if size == 1 {
            header_size = 16;
            match read_u64(bytes, cursor + 8) {
                Some(s) => s,
                None => return None,
            }
        } else if size == 0 {
            (end - cursor) as u64
        } else {
            size as u64
        };
        if box_size < header_size {
            return None;
        }
        if box_size > (end - cursor) as u64 {
            return None;
        }
        let box_end: usize = cursor + box_size as usize;
        let payload_start: usize = cursor + header_size as usize;
        let same = bytes[cursor + 4] == name[0] && bytes[cursor + 5] == name[1] && bytes[cursor
            + 6] == name[2] && bytes[cursor + 7] == name[3];
        if same {
            assert(bytes@.subrange(cursor + 4, cursor + 8) =~= name@);
            return Some(Mp4Box { payload_start, end: box_end });
        }
        assert(bytes@.subrange(cursor + 4, cursor + 8) != name@) by {
            if bytes@.subrange(cursor + 4, cursor + 8) == name@ {
                assert(bytes@.subrange(cursor + 4, cursor + 8)[0] == name@[0]);
                assert(bytes@.subrange(cursor + 4, cursor + 8)[1] == name@[1]);
                assert(bytes@.subrange(cursor + 4, cursor + 8)[2] == name@[2]);
                assert(bytes@.subrange(cursor + 4, cursor + 8)[3] == name@[3]);
            }
        }
        cursor = box_end;
    }
    None
}

/// Reads the duration in milliseconds out of a movie header payload.
pub fn parse_mvhd_duration_ms(payload: &[u8]) -> (r: Option<i64>)
    ensures
        match mvhd_duration(payload@) {
            Some(ms) => r == Some(ms as i64),
            None => r is None,
        },
{
    if payload.len() == 0 {
        return None;
    }
    let version = payload[0];
    let (timescale, duration): (u64, u64) = if version == 0 {
        let t = match read_u32(payload, 12) {
            Some(v) => v,
            None => return None,
        };
        let d = match read_u32(payload, 16) {
            Some(v) => v,
            None => return None,
        };
        (t as u64, d as u64)
    } else if version == 1 {
        let t = match read_u32(payload, 20) {
            Some(v) => v,
            None => return None,
        };
        let d = match read_u64(payload, 24) {
            Some(v) => v,
            None => return None,
        };
        (t as u64, d)
    } else {
        return None;
    };
    if timescale == 0 {
        return None;
    }
    let scaled = match duration.checked_mul(1000) {
        Some(v) => v,
        None => return None,
    };
    let ms = scaled / timescale;
    if ms > i64::MAX as u64 {
        return None;
    }
    Some(ms as i64)
}

/// The duration in milliseconds that an MP4 file declares in its movie header.
pub fn mp4_duration_ms(bytes: &[u8]) -> (r: Option<i64>)
    ensures
        match mp4_duration(bytes@) {
            Some(ms) => r == Some(ms as i64),
            None => r is None,
        },
{
    let moov_tag: [u8; 4] = [0x6d, 0x6f, 0x6f, 0x76];
    let mvhd_tag: [u8; 4] = [0x6d, 0x76, 0x68, 0x64];
    assert(moov_tag@ =~= moov_name());
    assert(mvhd_tag@ =~= mvhd_name());
    let moov = match find_mp4_child_box(bytes, 0, bytes.len(), &moov_tag) {
        Some(b) => b,
        None => return None,
    };
    assert(child_box(bytes@, 0, bytes@.len() as int, moov_name()) == Some(
        (moov.payload_start as int, moov.end as int),
    ));
    let mvhd = match find_mp4_child_box(bytes, moov.payload_start, moov.end, &mvhd_tag) {
        Some(b) => b,
        None => return None,
    };
    assert(child_box(bytes@, moov.payload_start as int, moov.end as int, mvhd_name()) == Some(
        (mvhd.payload_start as int, mvhd.end as int),
    ));
    let payload = vstd::slice::slice_subrange(bytes, mvhd.payload_start, mvhd.end);
    parse_mvhd_duration_ms(payload)
}

} // verus!
