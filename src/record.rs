//! The fixed binary layout of a fanotify event record, and the decoding of a
//! buffer filled by one read of the notification channel.
use vstd::prelude::*;

verus! {

/// Size in bytes of one `fanotify_event_metadata` record.
pub const EVENT_METADATA_LEN: usize = 24;

/// Number of records that one read of the channel may return.
pub const EVENT_BATCH: usize = 1024;

/// Flags of `fanotify_init`: close on exec, content class, non-blocking.
pub const FAN_CLOEXEC: u32 = 0x0000_0001;
pub const FAN_NONBLOCK: u32 = 0x0000_0002;
pub const FAN_CLASS_CONTENT: u32 = 0x0000_0004;

/// Event file flags of `fanotify_init`: read-only descriptors.
pub const O_RDONLY: u32 = 0;
pub const O_LARGEFILE: u32 = 0;

/// Flags of `fanotify_mark`: add a mark on the whole mount.
pub const FAN_MARK_ADD: u32 = 0x0000_0001;
pub const FAN_MARK_MOUNT: u32 = 0x0000_0010;

/// Event kinds that the watch reports.
pub const FAN_ACCESS: u64 = 0x0000_0001;
pub const FAN_OPEN: u64 = 0x0000_0020;
pub const FAN_OPEN_EXEC: u64 = 0x0000_1000;

/// Directory descriptor meaning "relative to the working directory".
pub const AT_FDCWD: i32 = -100;

/// One raw access record as the kernel lays it out (little-endian, no padding).
#[derive(Debug, Clone, Copy, PartialEq, Eq)]
pub struct FanotifyEvent {
    pub event_len: u32,
    pub vers: u8,
    pub reserved: u8,
    pub metadata_len: u16,
    pub mask: u64,
    pub fd: i32,
    pub pid: i32,
}

/// Flags handed to `fanotify_init`.
pub open spec fn spec_init_flags() -> u32 {
    FAN_CLOEXEC | FAN_CLASS_CONTENT | FAN_NONBLOCK
}

pub fn init_flags() -> (r: u32)
    ensures
        r == spec_init_flags(),
        r == 7,
{
    let r = FAN_CLOEXEC | FAN_CLASS_CONTENT | FAN_NONBLOCK;
    assert(r == 7) by (bit_vector)
        requires
            r == 1u32 | 4u32 | 2u32,
    ;
    r
}

/// Event file flags handed to `fanotify_init`.
pub fn init_event_flags() -> (r: u32)
    ensures
        r == 0,
{
    let r = O_RDONLY | O_LARGEFILE;
    assert(r == 0) by (bit_vector)
        requires
            r == 0u32 | 0u32,
    ;
    r
}

/// Flags handed to `fanotify_mark`: add, scoped to the mount.
pub fn mark_flags() -> (r: u32)
    ensures
        r == 0x11,
{
    let r = FAN_MARK_ADD | FAN_MARK_MOUNT;
    assert(r == 0x11) by (bit_vector)
        requires
            r == 1u32 | 0x10u32,
    ;
    r
}

/// Event mask handed to `fanotify_mark`: open, access and open-for-execute.
pub fn mark_mask() -> (r: u64)
    ensures
        r == 0x1021,
{
    let r = FAN_OPEN | FAN_ACCESS | FAN_OPEN_EXEC;
    assert(r == 0x1021) by (bit_vector)
        requires
            r == 0x20u64 | 1u64 | 0x1000u64,
    ;
    r
}

/// Size of the buffer for one read: room for a full batch of records.
pub fn read_buffer_len() -> (r: usize)
    ensures
        r == EVENT_METADATA_LEN * EVENT_BATCH,
{
    EVENT_METADATA_LEN * EVENT_BATCH
}

/// Unsigned little-endian value of `n` bytes of `b` starting at `at`.
pub open spec fn le_value(b: Seq<u8>, at: int, n: nat) -> nat
    decreases n,
{
    if n == 0 {
        0
    } else {
        b[at] as nat + 256 * le_value(b, at + 1, (n - 1) as nat)
    }
}

/// Two's complement reading of a 32-bit unsigned value.
pub open spec fn signed32(v: nat) -> int {
    if v < 0x8000_0000 {
        v as int
    } else {
        v - 0x1_0000_0000
    }
}

/// The record whose 24 bytes start at `at` in `b`.
pub open spec fn decode_at(b: Seq<u8>, at: int) -> FanotifyEvent {
    FanotifyEvent {
        event_len: le_value(b, at, 4) as u32,
        vers: b[at + 4],
        reserved: b[at + 5],
        metadata_len: le_value(b, at + 6, 2) as u16,
        mask: le_value(b, at + 8, 8) as u64,
        fd: signed32(le_value(b, at + 16, 4)) as i32,
        pid: signed32(le_value(b, at + 20, 4)) as i32,
    }
}

/// The records held by a buffer of `b.len()` bytes: one for each whole
/// 24-byte block, in order; a trailing partial block is ignored.
pub open spec fn decode_all(b: Seq<u8>) -> Seq<FanotifyEvent> {
    Seq::new(b.len() / EVENT_METADATA_LEN as nat, |i: int| decode_at(b, i * EVENT_METADATA_LEN))
}

proof fn lemma_le2(b: Seq<u8>, at: int)
    requires
        0 <= at,
        at + 2 <= b.len(),
    ensures
        le_value(b, at, 2) == b[at] + 256 * b[at + 1],
        le_value(b, at, 2) < 0x1_0000,
{
    reveal_with_fuel(le_value, 3);
}

proof fn lemma_le4(b: Seq<u8>, at: int)
    requires
        0 <= at,
        at + 4 <= b.len(),
    ensures
        le_value(b, at, 4) == b[at] + 256 * b[at + 1] + 65536 * b[at + 2] + 16777216 * b[at + 3],
        le_value(b, at, 4) < 0x1_0000_0000,
{
    reveal_with_fuel(le_value, 5);
}

proof fn lemma_le8(b: Seq<u8>, at: int)
    requires
        0 <= at,
        at + 8 <= b.len(),
    ensures
        le_value(b, at, 8) == le_value(b, at, 4) + 0x1_0000_0000 * le_value(b, at + 4, 4),
        le_value(b, at, 8) < 0x1_0000_0000_0000_0000,
{
    lemma_le4(b, at);
    lemma_le4(b, at + 4);
    reveal_with_fuel(le_value, 9);
}

fn read_u16(b: &[u8], at: usize) -> (r: u16)
    requires
        at + 2 <= b@.len(),
    ensures
        r as nat == le_value(b@, at as int, 2),
{
    proof {
        lemma_le2(b@, at as int);
    }
    b[at] as u16 + 256 * (b[at + 1] as u16)
}

fn read_u32(b: &[u8], at: usize) -> (r: u32)
    requires
        at + 4 <= b@.len(),
    ensures
        r as nat == le_value(b@, at as int, 4),
{
    proof {
        lemma_le4(b@, at as int);
    }
    b[at] as u32 + 256 * (b[at + 1] as u32) + 65536 * (b[at + 2] as u32) + 16777216 * (
    b[at + 3] as u32)
}

fn read_u64(b: &[u8], at: usize) -> (r: u64)
    requires
        at + 8 <= b@.len(),
    ensures
        r as nat == le_value(b@, at as int, 8),
{
    proof {
        lemma_le8(b@, at as int);
    }
    let len = b.len();
    assert(at + 8 <= len);
    let lo = read_u32(b, at) as u64;
    let hi = read_u32(b, at + 4) as u64;
    lo + 0x1_0000_0000 * hi
}

fn read_i32(b: &[u8], at: usize) -> (r: i32)
    requires
        at + 4 <= b@.len(),
    ensures
        r as int == signed32(le_value(b@, at as int, 4)),
{
    let v = read_u32(b, at);
    if v < 0x8000_0000 {
        v as i32
    } else {
        (v as i64 - 0x1_0000_0000i64) as i32
    }
}

/// Decodes the record whose bytes start at `at`.
pub fn decode_event(b: &[u8], at: usize) -> (r: FanotifyEvent)
    requires
        at + EVENT_METADATA_LEN <= b@.len(),
    ensures
        r == decode_at(b@, at as int),
{
    proof {
        lemma_le2(b@, at + 6);
        lemma_le4(b@, at as int);
        lemma_le8(b@, at + 8);
        lemma_le4(b@, at + 16);
        lemma_le4(b@, at + 20);
    }
    let len = b.len();
    assert(at + EVENT_METADATA_LEN <= len);
    FanotifyEvent {
        event_len: read_u32(b, at),
        vers: b[at + 4],
        reserved: b[at + 5],
        metadata_len: read_u16(b, at + 6),
        mask: read_u64(b, at + 8),
        fd: read_i32(b, at + 16),
        pid: read_i32(b, at + 20),
    }
}

/// Decodes every whole record of the bytes that one read returned.
pub fn parse_events(b: &[u8]) -> (r: Vec<FanotifyEvent>)
    ensures
        r@ == decode_all(b@),
{
    let len = b.len();
    let n = len / EVENT_METADATA_LEN;
    let mut out: Vec<FanotifyEvent> = Vec::new();
    let mut i: usize = 0;
    while i < n
        invariant
            len == b@.len(),
            n == len / EVENT_METADATA_LEN,
            i <= n,
            out@ =~= decode_all(b@).take(i as int),
        decreases n - i,
    {
        assert((i + 1) * EVENT_METADATA_LEN <= b@.len()) by (nonlinear_arith)
            requires
                i < n,
                n == b@.len() / 24,
                b@.len() == len,
        ;
        let e = decode_event(b, i * EVENT_METADATA_LEN);
        out.push(e);
        i += 1;
    }
    out
}

} // verus!
