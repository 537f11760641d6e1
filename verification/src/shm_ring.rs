// SPDX-License-Identifier: GPL-2.0-or-later
//! The writer half of the Preview/Program video transport: a memory-mapped
//! ring of NV12 frames, one per feed.
//!
//! Layout: the header, then `SLOT_COUNT` slots. A slot is its own header
//! followed by the NV12 planes, Y then interleaved CbCr, both with rows
//! packed at `width` bytes.
//!
//! Each slot is guarded by a sequence number: odd while the slot is being
//! written, even when its frame is complete. A reader that sees an odd
//! number, or another one after copying, throws that read away. Nobody
//! waits, and a torn frame is never shown.

use vstd::prelude::*;

use crate::text::{chars_of, text5};

verus! {

/// `FSW1` little-endian: tells a ring from any other file.
pub const MAGIC: u32 = 0x3157_5346;

/// Bumped on any layout change.
pub const VERSION: u32 = 1;

/// Slots in a ring.
pub const SLOT_COUNT: u32 = 3;

/// `video_format` NV12, as libobs numbers it.
pub const FORMAT_NV12: u32 = 2;

/// Bytes of the header at the start of the mapping.
pub const HEADER_BYTES: usize = 56;

/// Bytes of the header at the start of each slot.
pub const SLOT_HEADER_BYTES: usize = 16;

/// Fixed-size head of the mapping.
pub struct Header {
    pub magic: u32,
    pub version: u32,
    pub width: u32,
    pub height: u32,
    /// `video_format` as libobs numbers it.
    pub format: u32,
    pub fps_num: u32,
    pub fps_den: u32,
    pub slot_count: u32,
    pub slot_bytes: u32,
    pub writer_pid: u32,
    /// Total frames written. `% slot_count` gives the slot being written;
    /// the newest complete frame is the one before it.
    pub frames: u64,
    /// Time of the last write, in units of 100 ns since the Unix epoch.
    pub heartbeat: u64,
}

/// Head of one slot. The frame's bytes follow immediately.
pub struct SlotHeader {
    /// Odd while the slot is being written, even when it is complete.
    pub seq: u64,
    /// Capture time, in units of 100 ns since the Unix epoch.
    pub timecode: u64,
}

// ---------------------------------------------------------------------
// Sizes
// ---------------------------------------------------------------------

/// NV12 is one byte per pixel of luma plus half that of interleaved chroma.
pub open spec fn frame_size(width: int, height: int) -> int {
    width * height + width * (height / 2)
}

pub open spec fn slot_size(width: int, height: int) -> int {
    SLOT_HEADER_BYTES + frame_size(width, height)
}

pub open spec fn mapping_size(width: int, height: int) -> int {
    HEADER_BYTES + SLOT_COUNT * slot_size(width, height)
}

proof fn sizes_are_whole(width: int, height: int)
    requires
        0 <= width,
        0 <= height,
    ensures
        0 <= width * height <= frame_size(width, height),
        0 <= width * (height / 2) <= frame_size(width, height),
{
    assert(0 <= width * height) by (nonlinear_arith)
        requires
            0 <= width,
            0 <= height,
    ;
    let half = height / 2;
    assert(0 <= width * half) by (nonlinear_arith)
        requires
            0 <= width,
            0 <= half,
    ;
}

/// Bytes of one NV12 frame.
pub fn frame_bytes(width: u32, height: u32) -> (bytes: usize)
    requires
        frame_size(width as int, height as int) <= usize::MAX,
    ensures
        bytes == frame_size(width as int, height as int),
        bytes == width * height + width * (height as int / 2),
{
    proof {
        sizes_are_whole(width as int, height as int);
    }
    let w: usize = width as usize;
    let h: usize = height as usize;
    w * h + w * (h / 2)
}

/// Bytes of one slot.
pub fn slot_bytes(width: u32, height: u32) -> (bytes: usize)
    requires
        slot_size(width as int, height as int) <= usize::MAX,
    ensures
        bytes == slot_size(width as int, height as int),
        bytes == 16 + width * height + width * (height as int / 2),
{
    SLOT_HEADER_BYTES + frame_bytes(width, height)
}

/// Bytes of the whole mapping.
pub fn mapping_bytes(width: u32, height: u32) -> (bytes: usize)
    requires
        mapping_size(width as int, height as int) <= usize::MAX,
    ensures
        bytes == mapping_size(width as int, height as int),
        bytes == 56 + 3 * (16 + width * height + width * (height as int / 2)),
{
    proof {
        sizes_are_whole(width as int, height as int);
    }
    HEADER_BYTES + SLOT_COUNT as usize * slot_bytes(width, height)
}

// ---------------------------------------------------------------------
// The file
// ---------------------------------------------------------------------

pub open spec fn ascii_alphanumeric(c: char) -> bool {
    ('0' <= c <= '9') || ('A' <= c <= 'Z') || ('a' <= c <= 'z')
}

/// The ASCII letters and digits of `user`, in order.
pub open spec fn alphanumerics(user: Seq<char>) -> Seq<char>
    decreases user.len(),
{
    if user.len() == 0 {
        Seq::empty()
    } else {
        let before = alphanumerics(user.drop_last());
        if ascii_alphanumeric(user.last()) {
            before.push(user.last())
        } else {
            before
        }
    }
}

/// The first `n` of `s`, or all of it where it is shorter.
pub open spec fn at_most<T>(s: Seq<T>, n: int) -> Seq<T> {
    if s.len() <= n {
        s
    } else {
        s.take(n)
    }
}

/// The user a ring belongs to: `USER`, else `USERNAME`, else a fixed name.
pub open spec fn ring_user(user: Option<Seq<char>>, username: Option<Seq<char>>) -> Seq<char> {
    match user {
        Some(name) => name,
        None => match username {
            Some(name) => name,
            None => "user"@,
        },
    }
}

pub open spec fn ring_file(user: Option<Seq<char>>, username: Option<Seq<char>>, feed: Seq<char>) -> Seq<char> {
    "framesw-"@ + at_most(alphanumerics(ring_user(user, username)), 24) + "-"@ + feed + ".ring"@
}

/// The letters and digits of a name are all of them, in order.
pub proof fn letters_and_digits_are_kept(user: Seq<char>)
    ensures
        alphanumerics(user) == user.filter(
            |c: char| ('0' <= c <= '9') || ('A' <= c <= 'Z') || ('a' <= c <= 'z'),
        ),
    decreases user.len(),
{
    reveal(Seq::filter);
    if user.len() > 0 {
        letters_and_digits_are_kept(user.drop_last());
    }
}

/// A ring's file is named after its user and its feed: the user's letters and
/// digits, no more than 24, and the feed's own key.
pub proof fn a_ring_is_named_after_its_user(user: Option<Seq<char>>, username: Option<Seq<char>>, feed: Seq<char>)
    ensures
        ({
            let owner = if user is Some {
                user->0
            } else if username is Some {
                username->0
            } else {
                "user"@
            };
            let kept = owner.filter(|c: char| ('0' <= c <= '9') || ('A' <= c <= 'Z') || ('a' <= c <= 'z'));
            let safe = if kept.len() > 24 {
                kept.take(24)
            } else {
                kept
            };
            ring_file(user, username, feed) == "framesw-"@ + safe + "-"@ + feed + ".ring"@
        }),
{
    letters_and_digits_are_kept(ring_user(user, username));
}

fn is_ascii_alphanumeric(c: char) -> (yes: bool)
    ensures
        yes == ascii_alphanumeric(c),
{
    ('0' <= c && c <= '9') || ('A' <= c && c <= 'Z') || ('a' <= c && c <= 'z')
}

/// At most 24 letters and digits of a user's name.
fn safe_user(user: &str) -> (safe: String)
    ensures
        safe@ == at_most(alphanumerics(user@), 24),
{
    let chars = chars_of(user);
    let mut safe = String::new();
    let mut kept: usize = 0;
    let mut i: usize = 0;
    assert(user@.take(0) =~= Seq::<char>::empty());
    while i < chars.len()
        invariant
            chars@ == user@,
            i <= chars@.len(),
            kept == safe@.len(),
            kept <= 24,
            safe@ == at_most(alphanumerics(user@.take(i as int)), 24),
        decreases chars@.len() - i,
    {
        assert(user@.take(i + 1).drop_last() =~= user@.take(i as int));
        let ghost before = alphanumerics(user@.take(i as int));
        if is_ascii_alphanumeric(chars[i]) {
            if kept < 24 {
                safe.push(chars[i]);
                kept = kept + 1;
            } else {
                assert(at_most(before.push(user@[i as int]), 24) =~= at_most(before, 24));
            }
        }
        i = i + 1;
    }
    assert(user@.take(i as int) =~= user@);
    safe
}

/// Name of a feed's ring in the user's temporary directory, from the `USER`
/// and `USERNAME` variables: one file per user and feed.
pub fn ring_path(user: Option<&str>, username: Option<&str>, feed: &str) -> (name: String)
    ensures
        name@ == ring_file(
            (match user {
                Some(text) => Some(text@),
                None => None,
            }),
            (match username {
                Some(text) => Some(text@),
                None => None,
            }),
            feed@,
        ),
        ({
            let owner = match user {
                Some(text) => text@,
                None => match username {
                    Some(text) => text@,
                    None => "user"@,
                },
            };
            let kept = owner.filter(|c: char| ('0' <= c <= '9') || ('A' <= c <= 'Z') || ('a' <= c <= 'z'));
            name@ == "framesw-"@ + (if kept.len() > 24 {
                kept.take(24)
            } else {
                kept
            }) + "-"@ + feed@ + ".ring"@
        }),
{
    proof {
        a_ring_is_named_after_its_user(
            (match user {
                Some(text) => Some(text@),
                None => None,
            }),
            (match username {
                Some(text) => Some(text@),
                None => None,
            }),
            feed@,
        );
    }
    let owner = match user {
        Some(text) => text,
        None => match username {
            Some(text) => text,
            None => "user",
        },
    };
    let safe = safe_user(owner);
    text5("framesw-", safe.as_str(), "-", feed, ".ring")
}

// ---------------------------------------------------------------------
// Layout
// ---------------------------------------------------------------------

/// One number of the mapping that is stored in a single write.
#[derive(Clone, Copy, PartialEq, Eq, Structural, Debug)]
pub enum Cell {
    Magic,
    Version,
    Width,
    Height,
    Format,
    FpsNum,
    FpsDen,
    SlotCount,
    SlotBytes,
    WriterPid,
    Frames,
    Heartbeat,
    /// Sequence number of a slot.
    Sequence(u32),
    /// Timecode of a slot.
    Timecode(u32),
}

pub open spec fn cell_size(cell: Cell) -> int {
    match cell {
        Cell::Frames | Cell::Heartbeat | Cell::Sequence(_) | Cell::Timecode(_) => 8,
        _ => 4,
    }
}

/// Where a slot starts in a mapping with slots of `slot_size` bytes.
pub open spec fn slot_start(slot: int, slot_size: int) -> int {
    HEADER_BYTES + slot * slot_size
}

/// Where a slot's frame starts.
pub open spec fn frame_start(slot: int, slot_size: int) -> int {
    slot_start(slot, slot_size) + SLOT_HEADER_BYTES
}

pub open spec fn cell_start(cell: Cell, slot_size: int) -> int {
    match cell {
        Cell::Magic => 0,
        Cell::Version => 4,
        Cell::Width => 8,
        Cell::Height => 12,
        Cell::Format => 16,
        Cell::FpsNum => 20,
        Cell::FpsDen => 24,
        Cell::SlotCount => 28,
        Cell::SlotBytes => 32,
        Cell::WriterPid => 36,
        Cell::Frames => 40,
        Cell::Heartbeat => 48,
        Cell::Sequence(slot) => slot_start(slot as int, slot_size),
        Cell::Timecode(slot) => slot_start(slot as int, slot_size) + 8,
    }
}

/// Whether a cell lies in a ring of `SLOT_COUNT` slots.
pub open spec fn in_ring(cell: Cell) -> bool {
    match cell {
        Cell::Sequence(slot) | Cell::Timecode(slot) => slot < SLOT_COUNT,
        _ => true,
    }
}

proof fn slots_follow_each_other(slot: int, slot_size: int)
    requires
        0 <= slot < SLOT_COUNT,
    ensures
        slot == 0 ==> slot_start(slot, slot_size) == HEADER_BYTES,
        slot == 1 ==> slot_start(slot, slot_size) == HEADER_BYTES + slot_size,
        slot == 2 ==> slot_start(slot, slot_size) == HEADER_BYTES + slot_size + slot_size,
{
    assert(slot == 0 || slot == 1 || slot == 2);
    assert(0 * slot_size == 0 && 1 * slot_size == slot_size && 2 * slot_size == slot_size + slot_size);
}

/// No two cells of a ring share a byte, and each lies in the mapping.
pub proof fn cells_lie_apart(a: Cell, b: Cell, width: int, height: int)
    requires
        in_ring(a),
        in_ring(b),
        a != b,
        0 <= width,
        0 <= height,
    ensures
        cell_start(a, slot_size(width, height)) + cell_size(a) <= mapping_size(width, height),
        cell_start(a, slot_size(width, height)) + cell_size(a) <= cell_start(b, slot_size(width, height))
            || cell_start(b, slot_size(width, height)) + cell_size(b) <= cell_start(a, slot_size(width, height)),
{
    sizes_are_whole(width, height);
    let size = slot_size(width, height);
    match a {
        Cell::Sequence(slot) | Cell::Timecode(slot) => slots_follow_each_other(slot as int, size),
        _ => {},
    }
    match b {
        Cell::Sequence(slot) | Cell::Timecode(slot) => slots_follow_each_other(slot as int, size),
        _ => {},
    }
}

/// The frames of a ring lie in the mapping, apart from each other and from
/// every cell.
pub proof fn frames_lie_apart(slot: int, other: int, cell: Cell, width: int, height: int)
    requires
        0 <= slot < SLOT_COUNT,
        0 <= other < SLOT_COUNT,
        slot != other,
        in_ring(cell),
        0 <= width,
        0 <= height,
    ensures
        HEADER_BYTES <= frame_start(slot, slot_size(width, height)),
        frame_start(slot, slot_size(width, height)) + frame_size(width, height) <= mapping_size(width, height),
        frame_start(slot, slot_size(width, height)) + frame_size(width, height) <= frame_start(
            other,
            slot_size(width, height),
        ) || frame_start(other, slot_size(width, height)) + frame_size(width, height) <= frame_start(
            slot,
            slot_size(width, height),
        ),
        frame_start(slot, slot_size(width, height)) + frame_size(width, height) <= cell_start(
            cell,
            slot_size(width, height),
        ) || cell_start(cell, slot_size(width, height)) + cell_size(cell) <= frame_start(
            slot,
            slot_size(width, height),
        ),
{
    sizes_are_whole(width, height);
    let size = slot_size(width, height);
    slots_follow_each_other(slot, size);
    slots_follow_each_other(other, size);
    match cell {
        Cell::Sequence(s) | Cell::Timecode(s) => slots_follow_each_other(s as int, size),
        _ => {},
    }
}

/// Bytes of a cell.
pub fn cell_bytes(cell: Cell) -> (bytes: usize)
    ensures
        bytes == cell_size(cell),
        bytes == (match cell {
            Cell::Frames | Cell::Heartbeat | Cell::Sequence(_) | Cell::Timecode(_) => 8int,
            _ => 4,
        }),
{
    match cell {
        Cell::Frames | Cell::Heartbeat | Cell::Sequence(_) | Cell::Timecode(_) => 8,
        _ => 4,
    }
}

// ---------------------------------------------------------------------
// The ring as a value
// ---------------------------------------------------------------------

/// One write of a number to the mapping.
#[derive(Clone, Copy, PartialEq, Eq, Structural, Debug)]
pub struct Store {
    pub cell: Cell,
    pub value: u64,
    /// Whether every earlier write must be visible before this one.
    pub release: bool,
}

/// A slot of the mapping.
pub ghost struct SlotView {
    pub head: SlotHeader,
    pub data: Seq<u8>,
}

/// The mapping.
pub ghost struct RingView {
    pub header: Header,
    pub slots: Seq<SlotView>,
}

pub open spec fn with_seq(ring: RingView, slot: int, seq: u64) -> RingView {
    let head = SlotHeader { seq, ..ring.slots[slot].head };
    RingView { slots: ring.slots.update(slot, SlotView { head, ..ring.slots[slot] }), ..ring }
}

pub open spec fn with_timecode(ring: RingView, slot: int, timecode: u64) -> RingView {
    let head = SlotHeader { timecode, ..ring.slots[slot].head };
    RingView { slots: ring.slots.update(slot, SlotView { head, ..ring.slots[slot] }), ..ring }
}

pub open spec fn with_data(ring: RingView, slot: int, data: Seq<u8>) -> RingView {
    RingView { slots: ring.slots.update(slot, SlotView { data, ..ring.slots[slot] }), ..ring }
}

/// The mapping after one write.
pub open spec fn stored(ring: RingView, store: Store) -> RingView {
    let header = ring.header;
    let value = store.value as u32;
    match store.cell {
        Cell::Magic => RingView { header: Header { magic: value, ..header }, ..ring },
        Cell::Version => RingView { header: Header { version: value, ..header }, ..ring },
        Cell::Width => RingView { header: Header { width: value, ..header }, ..ring },
        Cell::Height => RingView { header: Header { height: value, ..header }, ..ring },
        Cell::Format => RingView { header: Header { format: value, ..header }, ..ring },
        Cell::FpsNum => RingView { header: Header { fps_num: value, ..header }, ..ring },
        Cell::FpsDen => RingView { header: Header { fps_den: value, ..header }, ..ring },
        Cell::SlotCount => RingView { header: Header { slot_count: value, ..header }, ..ring },
        Cell::SlotBytes => RingView { header: Header { slot_bytes: value, ..header }, ..ring },
        Cell::WriterPid => RingView { header: Header { writer_pid: value, ..header }, ..ring },
        Cell::Frames => RingView { header: Header { frames: store.value, ..header }, ..ring },
        Cell::Heartbeat => RingView { header: Header { heartbeat: store.value, ..header }, ..ring },
        Cell::Sequence(slot) => with_seq(ring, slot as int, store.value),
        Cell::Timecode(slot) => with_timecode(ring, slot as int, store.value),
    }
}

/// The mapping after the writes of `stores`, in order.
pub open spec fn all_stored(ring: RingView, stores: Seq<Store>) -> RingView
    decreases stores.len(),
{
    if stores.len() == 0 {
        ring
    } else {
        stored(all_stored(ring, stores.drop_last()), stores.last())
    }
}

// ---------------------------------------------------------------------
// Stamping
// ---------------------------------------------------------------------

pub open spec fn plain_store(cell: Cell, value: u64) -> Store {
    Store { cell, value, release: false }
}

pub open spec fn release_store(cell: Cell, value: u64) -> Store {
    Store { cell, value, release: true }
}

/// The header of a fresh ring.
pub open spec fn fresh_header(width: u32, height: u32, fps_num: u32, fps_den: u32, pid: u32) -> Header {
    Header {
        magic: MAGIC,
        version: VERSION,
        width,
        height,
        format: FORMAT_NV12,
        fps_num,
        fps_den,
        slot_count: SLOT_COUNT,
        slot_bytes: slot_size(width as int, height as int) as u32,
        writer_pid: pid,
        frames: 0,
        heartbeat: 0,
    }
}

/// The writes that stamp a fresh header: the magic last, after all the
/// others are visible.
pub open spec fn stamp_stores(width: u32, height: u32, fps_num: u32, fps_den: u32, pid: u32) -> Seq<Store> {
    seq![
        plain_store(Cell::Version, VERSION as u64),
        plain_store(Cell::Width, width as u64),
        plain_store(Cell::Height, height as u64),
        plain_store(Cell::Format, FORMAT_NV12 as u64),
        plain_store(Cell::FpsNum, fps_num as u64),
        plain_store(Cell::FpsDen, fps_den as u64),
        plain_store(Cell::SlotCount, SLOT_COUNT as u64),
        plain_store(Cell::SlotBytes, (slot_size(width as int, height as int) as u32) as u64),
        plain_store(Cell::WriterPid, pid as u64),
        plain_store(Cell::Frames, 0),
        plain_store(Cell::Heartbeat, 0),
        release_store(Cell::Magic, MAGIC as u64),
    ]
}

/// A reader that sees the magic of a ring being stamped sees the whole
/// header behind it: at every point of the stamping either the magic is
/// missing or the header is complete.
pub proof fn the_magic_comes_last(
    ring: RingView,
    width: u32,
    height: u32,
    fps_num: u32,
    fps_den: u32,
    pid: u32,
    done: int,
)
    requires
        ring.header.magic != MAGIC,
        0 <= done <= stamp_stores(width, height, fps_num, fps_den, pid).len(),
    ensures
        ({
            let stores = stamp_stores(width, height, fps_num, fps_den, pid);
            let after = all_stored(ring, stores.take(done));
            &&& after.slots == ring.slots
            &&& after.header.magic == MAGIC <==> done == stores.len()
            &&& after.header.magic == MAGIC ==> after.header == fresh_header(width, height, fps_num, fps_den, pid)
            &&& stores.last().release
        }),
{
    let stores = stamp_stores(width, height, fps_num, fps_den, pid);
    reveal_with_fuel(all_stored, 14);
    let part = stores.take(done);
    if done >= 1 {
        assert(part.drop_last() =~= stores.take(done - 1));
    }
    assert(stores.take(0) =~= Seq::<Store>::empty());
    assert(stores.take(1).drop_last() =~= stores.take(0));
    assert(stores.take(2).drop_last() =~= stores.take(1));
    assert(stores.take(3).drop_last() =~= stores.take(2));
    assert(stores.take(4).drop_last() =~= stores.take(3));
    assert(stores.take(5).drop_last() =~= stores.take(4));
    assert(stores.take(6).drop_last() =~= stores.take(5));
    assert(stores.take(7).drop_last() =~= stores.take(6));
    assert(stores.take(8).drop_last() =~= stores.take(7));
    assert(stores.take(9).drop_last() =~= stores.take(8));
    assert(stores.take(10).drop_last() =~= stores.take(9));
    assert(stores.take(11).drop_last() =~= stores.take(10));
    assert(stores.take(12).drop_last() =~= stores.take(11));
    assert(done == 0 || done == 1 || done == 2 || done == 3 || done == 4 || done == 5 || done == 6 || done == 7
        || done == 8 || done == 9 || done == 10 || done == 11 || done == 12);
}

// ---------------------------------------------------------------------
// The writer
// ---------------------------------------------------------------------

/// What went wrong while a ring's file was being made.
pub enum RingFault {
    /// The file could not be created.
    Open(String),
    /// The file could not be given its size.
    Size(String),
    /// The file could not be mapped.
    Mapping(String),
}

pub open spec fn ring_error(fault: RingFault, path: Seq<char>) -> Seq<char> {
    match fault {
        RingFault::Open(cause) => "creating "@ + path + ": "@ + cause@,
        RingFault::Size(cause) => "sizing "@ + path + ": "@ + cause@,
        RingFault::Mapping(cause) => cause@,
    }
}

/// A mapped ring this process writes to.
pub struct RingWriter {
    width: u32,
    height: u32,
    slot_bytes: usize,
    path: String,
}

/// How one frame is written: `opening`, then the frame's bytes at `data_at`,
/// then the writes of `closing`, in this order.
pub struct FrameWrite {
    pub opening: Store,
    pub data_at: usize,
    pub closing: Vec<Store>,
}

/// The slot a ring writes next.
pub open spec fn next_slot(frames: u64) -> u32 {
    (frames % (SLOT_COUNT as u64)) as u32
}

/// Marks the slot as being written.
pub open spec fn opening_store(frames: u64, seq: u64) -> Store {
    release_store(Cell::Sequence(next_slot(frames)), seq | 1u64)
}

/// Makes the slot's frame complete, and only then counts it.
pub open spec fn closing_stores(frames: u64, seq: u64, timecode: u64) -> Seq<Store> {
    seq![
        plain_store(Cell::Timecode(next_slot(frames)), timecode),
        release_store(Cell::Sequence(next_slot(frames)), ((seq | 1u64) + 1) as u64),
        release_store(Cell::Frames, frames.wrapping_add(1)),
        plain_store(Cell::Heartbeat, timecode),
    ]
}

impl RingWriter {
    pub closed spec fn spec_width(&self) -> u32 {
        self.width
    }

    pub closed spec fn spec_height(&self) -> u32 {
        self.height
    }

    pub closed spec fn spec_path(&self) -> Seq<char> {
        self.path@
    }

    /// The slots are as large as the frames need, and the mapping can be
    /// addressed.
    pub closed spec fn well_formed(&self) -> bool {
        &&& self.slot_bytes == slot_size(self.width as int, self.height as int)
        &&& mapping_size(self.width as int, self.height as int) <= usize::MAX
    }

    /// A writer for the ring at `path`, once its file has been made and
    /// mapped.
    pub fn create(path: String, width: u32, height: u32, mapped: Result<(), RingFault>) -> (writer: Result<
        Self,
        String,
    >)
        requires
            mapping_size(width as int, height as int) <= usize::MAX,
        ensures
            match mapped {
                Ok(_) => writer matches Ok(ring) && ring.well_formed() && ring.spec_width() == width
                    && ring.spec_height() == height && ring.spec_path() == path@,
                Err(fault) => writer matches Err(message) && message@ == ring_error(fault, path@),
            },
            mapped matches Err(RingFault::Open(cause)) ==> writer matches Err(message) && message@ == "creating "@
                + path@ + ": "@ + cause@,
            mapped matches Err(RingFault::Size(cause)) ==> writer matches Err(message) && message@ == "sizing "@
                + path@ + ": "@ + cause@,
            mapped matches Err(RingFault::Mapping(cause)) ==> writer matches Err(message) && message@ == cause@,
    {
        match mapped {
            Ok(()) => {
                proof {
                    sizes_are_whole(width as int, height as int);
                }
                let slot_bytes: usize = slot_bytes(width, height);
                Ok(RingWriter { width, height, slot_bytes, path })
            },
            Err(fault) => {
                let message = match &fault {
                    RingFault::Open(cause) => text5("creating ", path.as_str(), ": ", cause.as_str(), ""),
                    RingFault::Size(cause) => text5("sizing ", path.as_str(), ": ", cause.as_str(), ""),
                    RingFault::Mapping(cause) => cause.clone(),
                };
                proof {
                    reveal_strlit("");
                    assert(message@ =~= ring_error(fault, path@));
                }
                Err(message)
            },
        }
    }

    /// Where the ring's file lies.
    pub fn path(&self) -> (path: &String)
        ensures
            path@ == self.spec_path(),
    {
        &self.path
    }

    /// The writes that stamp the header of the fresh ring, in order.
    pub fn stamp(&self, fps_num: u32, fps_den: u32, pid: u32) -> (stores: Vec<Store>)
        requires
            self.well_formed(),
        ensures
            stores@ == stamp_stores(self.spec_width(), self.spec_height(), fps_num, fps_den, pid),
            ({
                let size = 16 + self.spec_width() * self.spec_height() + self.spec_width() * (self.spec_height() as int / 2);
                stores@ == seq![
                    Store { cell: Cell::Version, value: 1, release: false },
                    Store { cell: Cell::Width, value: self.spec_width() as u64, release: false },
                    Store { cell: Cell::Height, value: self.spec_height() as u64, release: false },
                    Store { cell: Cell::Format, value: 2, release: false },
                    Store { cell: Cell::FpsNum, value: fps_num as u64, release: false },
                    Store { cell: Cell::FpsDen, value: fps_den as u64, release: false },
                    Store { cell: Cell::SlotCount, value: 3, release: false },
                    Store { cell: Cell::SlotBytes, value: (size as u32) as u64, release: false },
                    Store { cell: Cell::WriterPid, value: pid as u64, release: false },
                    Store { cell: Cell::Frames, value: 0, release: false },
                    Store { cell: Cell::Heartbeat, value: 0, release: false },
                    Store { cell: Cell::Magic, value: 0x3157_5346, release: true },
                ]
            }),
    {
        let slot_bytes: u32 = self.slot_bytes as u32;
        let stores: Vec<Store> = vec![
            Store { cell: Cell::Version, value: VERSION as u64, release: false },
            Store { cell: Cell::Width, value: self.width as u64, release: false },
            Store { cell: Cell::Height, value: self.height as u64, release: false },
            Store { cell: Cell::Format, value: FORMAT_NV12 as u64, release: false },
            Store { cell: Cell::FpsNum, value: fps_num as u64, release: false },
            Store { cell: Cell::FpsDen, value: fps_den as u64, release: false },
            Store { cell: Cell::SlotCount, value: SLOT_COUNT as u64, release: false },
            Store { cell: Cell::SlotBytes, value: slot_bytes as u64, release: false },
            Store { cell: Cell::WriterPid, value: pid as u64, release: false },
            Store { cell: Cell::Frames, value: 0, release: false },
            Store { cell: Cell::Heartbeat, value: 0, release: false },
            Store { cell: Cell::Magic, value: MAGIC as u64, release: true },
        ];
        assert(stores@ =~= stamp_stores(self.width, self.height, fps_num, fps_den, pid));
        stores
    }

    /// The write that ends the ring: without the magic a reader sees that it
    /// is none.
    pub fn unstamp(&self) -> (store: Store)
        ensures
            store == release_store(Cell::Magic, 0),
            store == (Store { cell: Cell::Magic, value: 0, release: true }),
    {
        Store { cell: Cell::Magic, value: 0, release: true }
    }

    /// Where a cell lies in the mapping.
    pub fn cell_at(&self, cell: Cell) -> (at: usize)
        requires
            self.well_formed(),
            in_ring(cell),
        ensures
            at == cell_start(cell, slot_size(self.spec_width() as int, self.spec_height() as int)),
            ({
                let size = 16 + self.spec_width() * self.spec_height() + self.spec_width() * (self.spec_height() as int / 2);
                at == (match cell {
                    Cell::Magic => 0,
                    Cell::Version => 4,
                    Cell::Width => 8,
                    Cell::Height => 12,
                    Cell::Format => 16,
                    Cell::FpsNum => 20,
                    Cell::FpsDen => 24,
                    Cell::SlotCount => 28,
                    Cell::SlotBytes => 32,
                    Cell::WriterPid => 36,
                    Cell::Frames => 40,
                    Cell::Heartbeat => 48,
                    Cell::Sequence(slot) => 56 + slot * size,
                    Cell::Timecode(slot) => 64 + slot * size,
                })
            }),
            at + cell_size(cell) <= mapping_size(self.spec_width() as int, self.spec_height() as int),
    {
        proof {
            sizes_are_whole(self.width as int, self.height as int);
            match cell {
                Cell::Sequence(slot) | Cell::Timecode(slot) => slots_follow_each_other(
                    slot as int,
                    self.slot_bytes as int,
                ),
                _ => {},
            }
        }
        match cell {
            Cell::Magic => 0,
            Cell::Version => 4,
            Cell::Width => 8,
            Cell::Height => 12,
            Cell::Format => 16,
            Cell::FpsNum => 20,
            Cell::FpsDen => 24,
            Cell::SlotCount => 28,
            Cell::SlotBytes => 32,
            Cell::WriterPid => 36,
            Cell::Frames => 40,
            Cell::Heartbeat => 48,
            Cell::Sequence(slot) => HEADER_BYTES + slot as usize * self.slot_bytes,
            Cell::Timecode(slot) => HEADER_BYTES + slot as usize * self.slot_bytes + 8,
        }
    }

    /// The slot that the frame after `frames` frames goes to.
    pub fn slot_after(&self, frames: u64) -> (slot: u32)
        ensures
            slot == next_slot(frames),
            slot < SLOT_COUNT,
            slot == frames % 3,
    {
        (frames % (SLOT_COUNT as u64)) as u32
    }

    /// How the next frame is written to a ring that counts `frames` frames
    /// and whose next slot has the sequence number `seq`.
    pub fn write_frame(&self, frames: u64, seq: u64, timecode: u64) -> (write: FrameWrite)
        requires
            self.well_formed(),
            seq | 1u64 < u64::MAX,
        ensures
            write.opening == opening_store(frames, seq),
            write.data_at == frame_start(
                next_slot(frames) as int,
                slot_size(self.spec_width() as int, self.spec_height() as int),
            ),
            write.data_at + frame_size(self.spec_width() as int, self.spec_height() as int) <= mapping_size(
                self.spec_width() as int,
                self.spec_height() as int,
            ),
            write.closing@ == closing_stores(frames, seq, timecode),
            write.opening == (Store {
                cell: Cell::Sequence((frames % 3) as u32),
                value: seq | 1u64,
                release: true,
            }),
            ({
                let size = 16 + self.spec_width() * self.spec_height() + self.spec_width() * (self.spec_height() as int / 2);
                write.data_at == 72 + (frames % 3) * size
            }),
            write.closing@ == seq![
                Store { cell: Cell::Timecode((frames % 3) as u32), value: timecode, release: false },
                Store {
                    cell: Cell::Sequence((frames % 3) as u32),
                    value: ((seq | 1u64) + 1) as u64,
                    release: true,
                },
                Store { cell: Cell::Frames, value: frames.wrapping_add(1), release: true },
                Store { cell: Cell::Heartbeat, value: timecode, release: false },
            ],
    {
        let slot: u32 = self.slot_after(frames);
        let odd: u64 = seq | 1;
        proof {
            sizes_are_whole(self.width as int, self.height as int);
            slots_follow_each_other(slot as int, self.slot_bytes as int);
        }
        let data_at: usize = HEADER_BYTES + slot as usize * self.slot_bytes + SLOT_HEADER_BYTES;
        let opening = Store { cell: Cell::Sequence(slot), value: odd, release: true };
        let closing: Vec<Store> = vec![
            Store { cell: Cell::Timecode(slot), value: timecode, release: false },
            Store { cell: Cell::Sequence(slot), value: odd + 1, release: true },
            Store { cell: Cell::Frames, value: frames.wrapping_add(1), release: true },
            Store { cell: Cell::Heartbeat, value: timecode, release: false },
        ];
        assert(closing@ =~= closing_stores(frames, seq, timecode));
        FrameWrite { opening, data_at, closing }
    }
}

// ---------------------------------------------------------------------
// Packing
// ---------------------------------------------------------------------

/// The bytes of a plane with rows at `stride` hold `rows` rows of `width`.
pub open spec fn rows_fit(bytes: int, rows: int, stride: int, width: int) -> bool {
    rows > 0 && width > 0 ==> (rows - 1) * stride + width <= bytes
}

/// An NV12 frame with rows packed at `width`, from planes with rows at
/// their own strides.
pub open spec fn packed(
    width: int,
    height: int,
    y: Seq<u8>,
    y_stride: int,
    uv: Seq<u8>,
    uv_stride: int,
) -> Seq<u8> {
    Seq::new(
        frame_size(width, height) as nat,
        |k: int|
            if k < width * height {
                y[(k / width) * y_stride + k % width]
            } else {
                uv[((k - width * height) / width) * uv_stride + (k - width * height) % width]
            },
    )
}

proof fn row_in_plane(row: int, rows: int, stride: int, width: int, bytes: int)
    requires
        0 <= row < rows,
        0 < width,
        0 <= stride,
        rows_fit(bytes, rows, stride, width),
    ensures
        0 <= row * stride,
        row * stride + width <= bytes,
{
    assert(0 <= row * stride) by (nonlinear_arith)
        requires
            0 <= row,
            0 <= stride,
    ;
    assert(row * stride <= (rows - 1) * stride) by (nonlinear_arith)
        requires
            0 <= row <= rows - 1,
            0 <= stride,
    ;
}

proof fn row_starts_in_frame(row: int, rows: int, width: int)
    requires
        0 <= row < rows,
        0 <= width,
    ensures
        0 <= row * width,
        row * width + width <= rows * width,
        (row + 1) * width == row * width + width,
{
    assert(0 <= row * width) by (nonlinear_arith)
        requires
            0 <= row,
            0 <= width,
    ;
    assert((row + 1) * width == row * width + width) by (nonlinear_arith);
    assert((row + 1) * width <= rows * width) by (nonlinear_arith)
        requires
            row + 1 <= rows,
            0 <= width,
    ;
}

/// Copies the rows of one plane, packed, into `out` from `at` on.
fn pack_plane(rows: usize, width: usize, plane: &[u8], stride: usize, at: usize, out: &mut [u8])
    requires
        rows_fit(plane@.len() as int, rows as int, stride as int, width as int),
        at + rows * width <= old(out)@.len(),
    ensures
        final(out)@.len() == old(out)@.len(),
        forall|k: int|
            0 <= k < old(out)@.len() ==> #[trigger] final(out)@[k] == (if at <= k < at + rows * width {
                plane@[((k - at) / (width as int)) * stride + (k - at) % (width as int)]
            } else {
                old(out)@[k]
            }),
{
    let ghost before = out@;
    if width == 0 {
        assert(rows * width == 0) by (nonlinear_arith)
            requires
                width == 0,
        ;
        return;
    }
    let plane_len: usize = plane.len();
    let out_len: usize = out.len();
    let mut row: usize = 0;
    while row < rows
        invariant
            0 < width,
            row <= rows,
            plane_len == plane@.len(),
            out_len == before.len(),
            rows_fit(plane@.len() as int, rows as int, stride as int, width as int),
            at + rows * width <= before.len(),
            out@.len() == before.len(),
            0 <= row * width,
            forall|k: int|
                0 <= k < before.len() ==> #[trigger] out@[k] == (if at <= k < at + row * width {
                    plane@[((k - at) / (width as int)) * stride + (k - at) % (width as int)]
                } else {
                    before[k]
                }),
        decreases rows - row,
    {
        proof {
            row_in_plane(row as int, rows as int, stride as int, width as int, plane@.len() as int);
            row_starts_in_frame(row as int, rows as int, width as int);
        }
        let from: usize = row * stride;
        let to: usize = at + row * width;
        let mut column: usize = 0;
        while column < width
            invariant
                column <= width,
                row < rows,
                plane_len == plane@.len(),
                out_len == before.len(),
                from == row * stride,
                to == at + row * width,
                from + width <= plane@.len(),
                to + width <= before.len(),
                out@.len() == before.len(),
                0 <= row * width,
                forall|k: int|
                    0 <= k < before.len() ==> #[trigger] out@[k] == (if at <= k < to + column {
                        plane@[((k - at) / (width as int)) * stride + (k - at) % (width as int)]
                    } else {
                        before[k]
                    }),
            decreases width - column,
        {
            proof {
                vstd::arithmetic::div_mod::lemma_fundamental_div_mod_converse(
                    row * width + column,
                    width as int,
                    row as int,
                    column as int,
                );
            }
            out[to + column] = plane[from + column];
            column = column + 1;
        }
        row = row + 1;
    }
}

/// A packed frame holds every pixel of the picture at its own place: row by
/// row, first the luma, then half as many rows of chroma, and nothing of the
/// rows' padding.
pub proof fn a_packed_frame_holds_every_pixel(
    width: int,
    height: int,
    y: Seq<u8>,
    y_stride: int,
    uv: Seq<u8>,
    uv_stride: int,
    row: int,
    column: int,
)
    requires
        0 <= height,
        0 <= row < height,
        0 <= column < width,
    ensures
        ({
            let frame = packed(width, height, y, y_stride, uv, uv_stride);
            &&& frame.len() == width * height + width * (height / 2)
            &&& frame[row * width + column] == y[row * y_stride + column]
            &&& row < height / 2 ==> frame[width * height + row * width + column] == uv[row * uv_stride + column]
        }),
{
    let frame = packed(width, height, y, y_stride, uv, uv_stride);
    sizes_are_whole(width, height);
    row_starts_in_frame(row, height, width);
    assert(height * width == width * height) by (nonlinear_arith);
    vstd::arithmetic::div_mod::lemma_fundamental_div_mod_converse(row * width + column, width, row, column);
    assert(0 <= row * width + column < width * height);
    if row < height / 2 {
        row_starts_in_frame(row, height / 2, width);
        let half = height / 2;
        assert(half * width == width * half) by (nonlinear_arith);
        let k = width * height + row * width + column;
        assert(k - width * height == row * width + column);
        assert(width * height <= k < frame.len());
    }
}

/// Copies an NV12 frame from libobs's planes, whose rows are padded to their
/// strides, into `out` with rows packed at `width`.
pub fn pack_frame(width: u32, height: u32, y: &[u8], y_stride: usize, uv: &[u8], uv_stride: usize, out: &mut [u8])
    requires
        old(out)@.len() == frame_size(width as int, height as int),
        rows_fit(y@.len() as int, height as int, y_stride as int, width as int),
        rows_fit(uv@.len() as int, height as int / 2, uv_stride as int, width as int),
    ensures
        final(out)@ == packed(width as int, height as int, y@, y_stride as int, uv@, uv_stride as int),
{
    proof {
        sizes_are_whole(width as int, height as int);
        assert(height * width == width * height) by (nonlinear_arith);
        assert((height as int / 2) * width == width * (height as int / 2)) by (nonlinear_arith);
    }
    let out_len: usize = out.len();
    assert(width * height <= out_len);
    let w: usize = width as usize;
    let h: usize = height as usize;
    pack_plane(h, w, y, y_stride, 0, out);
    let ghost luma = out@;
    pack_plane(h / 2, w, uv, uv_stride, w * h, out);
    proof {
        let whole = packed(width as int, height as int, y@, y_stride as int, uv@, uv_stride as int);
        assert(out@.len() == whole.len());
        assert forall|k: int| 0 <= k < whole.len() implies #[trigger] out@[k] == whole[k] by {
            if k < width * height {
                assert(out@[k] == luma[k]);
            }
        }
        assert(out@ =~= whole);
    }
}

// ---------------------------------------------------------------------
// What a reader sees
// ---------------------------------------------------------------------

proof fn odd_then_even(seq: u64)
    requires
        seq | 1u64 < u64::MAX,
    ensures
        seq <= seq | 1u64,
        (seq | 1u64) % 2 == 1,
        ((seq | 1u64) + 1) % 2 == 0,
        seq % 2 == 0 ==> seq < seq | 1u64,
        seq % 2 == 1 ==> seq | 1u64 == seq,
{
    assert(seq <= seq | 1u64) by (bit_vector);
    assert((seq | 1u64) % 2 == 1) by (bit_vector);
    assert(seq % 2 == 0 ==> seq < seq | 1u64) by (bit_vector);
    assert(seq % 2 == 1 ==> seq | 1u64 == seq) by (bit_vector);
}

/// The mapping after one frame has been written.
pub open spec fn frame_written(ring: RingView, frame: Seq<u8>, timecode: u64) -> RingView {
    let frames = ring.header.frames;
    let slot = next_slot(frames);
    let seq = ring.slots[slot as int].head.seq;
    all_stored(
        with_data(stored(ring, opening_store(frames, seq)), slot as int, frame),
        closing_stores(frames, seq, timecode),
    )
}

/// Writing a frame puts it, with its timecode and an even sequence number,
/// into the slot that the count of frames then calls the newest. The other
/// slots and the rest of the header stay as they were.
pub proof fn a_written_frame_reads_back(ring: RingView, frame: Seq<u8>, timecode: u64)
    requires
        ring.slots.len() == SLOT_COUNT,
        ring.slots[next_slot(ring.header.frames) as int].head.seq | 1u64 < u64::MAX,
    ensures
        ({
            let frames = ring.header.frames;
            let slot = next_slot(frames) as int;
            let after = frame_written(ring, frame, timecode);
            &&& after.slots.len() == SLOT_COUNT
            &&& after.slots[slot].data == frame
            &&& after.slots[slot].head.timecode == timecode
            &&& after.slots[slot].head.seq % 2 == 0
            &&& after.slots[slot].head.seq > ring.slots[slot].head.seq
            &&& forall|other: int|
                0 <= other < SLOT_COUNT && other != slot ==> #[trigger] after.slots[other] == ring.slots[other]
            &&& after.header == Header { frames: frames.wrapping_add(1), heartbeat: timecode, ..ring.header }
            &&& after.header.frames > 0 ==> slot == next_slot((after.header.frames - 1) as u64)
        }),
{
    let frames = ring.header.frames;
    let slot = next_slot(frames);
    let seq = ring.slots[slot as int].head.seq;
    odd_then_even(seq);
    let opened = with_data(stored(ring, opening_store(frames, seq)), slot as int, frame);
    after_closing(opened, frames, seq, timecode);
}

/// The four writes that close a frame, one by one.
proof fn after_closing(ring: RingView, frames: u64, seq: u64, timecode: u64)
    ensures
        ({
            let stores = closing_stores(frames, seq, timecode);
            let slot = next_slot(frames) as int;
            let timed = with_timecode(ring, slot, timecode);
            let closed = with_seq(timed, slot, ((seq | 1u64) + 1) as u64);
            let counted = RingView { header: Header { frames: frames.wrapping_add(1), ..closed.header }, ..closed };
            &&& stored(ring, stores[0]) == timed
            &&& stored(timed, stores[1]) == closed
            &&& stored(closed, stores[2]) == counted
            &&& all_stored(ring, stores) == stored(counted, stores[3])
            &&& all_stored(ring, stores) == RingView {
                header: Header { heartbeat: timecode, ..counted.header },
                ..counted
            }
        }),
{
    let stores = closing_stores(frames, seq, timecode);
    reveal_with_fuel(all_stored, 6);
    assert(stores.drop_last() =~= stores.take(3));
    assert(stores.take(3).drop_last() =~= stores.take(2));
    assert(stores.take(2).drop_last() =~= stores.take(1));
    assert(stores.take(1).drop_last() =~= Seq::<Store>::empty());
}

/// How far the writer is.
pub ghost enum Phase {
    /// No frame is being written.
    Idle,
    /// The slot is open; any of its bytes may change, in any order.
    Copying { frame: Seq<u8>, timecode: u64 },
    /// The whole frame and its timecode are in the slot.
    Timed { frame: Seq<u8>, timecode: u64 },
    /// The slot is complete, the frame not yet counted.
    Closed { timecode: u64 },
    /// The frame is counted, the heartbeat is due.
    Counted { timecode: u64 },
}

/// A ring at one moment, as its writer and its readers share it. `shown`
/// holds, for each slot, the timecode and the bytes of the frame that was
/// last completed there.
pub ghost struct Moment {
    pub ring: RingView,
    pub phase: Phase,
    pub shown: Seq<(u64, Seq<u8>)>,
}

/// The writer's next write takes the ring from `a` to `b`. A ring goes
/// through its moments in the order in which the writes are made.
pub open spec fn follows(a: Moment, b: Moment) -> bool {
    let frames = a.ring.header.frames;
    let slot = next_slot(frames) as int;
    let seq = a.ring.slots[slot].head.seq;
    match a.phase {
        Phase::Idle => {
            &&& seq | 1u64 < u64::MAX
            &&& b.phase matches Phase::Copying { frame, timecode }
            &&& frame.len() == a.ring.slots[slot].data.len()
            &&& b.ring == stored(a.ring, opening_store(frames, seq))
            &&& b.shown == a.shown
        },
        Phase::Copying { frame, timecode } => {
            ||| {
                &&& b.phase == a.phase
                &&& b.ring.slots[slot].data.len() == a.ring.slots[slot].data.len()
                &&& b.ring == with_data(a.ring, slot, b.ring.slots[slot].data)
                &&& b.shown == a.shown
            }
            ||| {
                &&& a.ring.slots[slot].data == frame
                &&& b.phase == Phase::Timed { frame, timecode }
                &&& b.ring == stored(a.ring, closing_stores(frames, seq, timecode)[0])
                &&& b.shown == a.shown
            }
        },
        Phase::Timed { frame, timecode } => {
            &&& b.phase == Phase::Closed { timecode }
            &&& b.ring == stored(a.ring, closing_stores(frames, seq, timecode)[1])
            &&& b.shown == a.shown.update(slot, (timecode, frame))
        },
        Phase::Closed { timecode } => {
            &&& b.phase == Phase::Counted { timecode }
            &&& b.ring == stored(a.ring, closing_stores(frames, seq, timecode)[2])
            &&& b.shown == a.shown
        },
        Phase::Counted { timecode } => {
            &&& b.phase is Idle
            &&& b.ring == stored(a.ring, closing_stores(frames, seq, timecode)[3])
            &&& b.shown == a.shown
        },
    }
}

/// Whether a slot is complete: its number is even.
pub open spec fn complete(ring: RingView, slot: int) -> bool {
    ring.slots[slot].head.seq % 2 == 0
}

/// What holds of a ring between any two writes: a slot with an even number
/// holds the frame that was last completed there.
pub open spec fn sound(m: Moment) -> bool {
    let slot = next_slot(m.ring.header.frames) as int;
    &&& m.ring.slots.len() == SLOT_COUNT
    &&& m.shown.len() == SLOT_COUNT
    &&& forall|i: int|
        0 <= i < SLOT_COUNT && complete(m.ring, i) ==> #[trigger] m.shown[i] == (
            m.ring.slots[i].head.timecode,
            m.ring.slots[i].data,
        )
    &&& match m.phase {
        Phase::Idle | Phase::Closed { .. } | Phase::Counted { .. } => true,
        Phase::Copying { frame, timecode } => {
            &&& !complete(m.ring, slot)
            &&& m.ring.slots[slot].head.seq < u64::MAX
        },
        Phase::Timed { frame, timecode } => {
            &&& !complete(m.ring, slot)
            &&& m.ring.slots[slot].head.seq < u64::MAX
            &&& m.ring.slots[slot].data == frame
            &&& m.ring.slots[slot].head.timecode == timecode
        },
    }
}

/// One write keeps the ring sound, lowers no sequence number, and changes
/// nothing in a slot that was complete unless it changes the slot's number.
pub proof fn a_write_keeps_the_ring_sound(a: Moment, b: Moment)
    requires
        sound(a),
        follows(a, b),
    ensures
        sound(b),
        forall|i: int|
            0 <= i < SLOT_COUNT ==> a.ring.slots[i].head.seq <= (#[trigger] b.ring.slots[i]).head.seq,
        forall|i: int|
            0 <= i < SLOT_COUNT && complete(a.ring, i) && b.ring.slots[i].head.seq == a.ring.slots[i].head.seq
                ==> #[trigger] b.ring.slots[i] == a.ring.slots[i] && b.shown[i] == a.shown[i],
{
    let frames = a.ring.header.frames;
    let slot = next_slot(frames) as int;
    let seq = a.ring.slots[slot].head.seq;
    assert(0 <= slot < SLOT_COUNT);
    if seq | 1u64 < u64::MAX {
        odd_then_even(seq);
    }
    match a.phase {
        Phase::Idle => {},
        Phase::Copying { frame, timecode } => {},
        Phase::Timed { frame, timecode } => {
            assert(seq % 2 == 1 ==> seq | 1u64 == seq) by (bit_vector);
            assert(seq | 1u64 == seq);
        },
        Phase::Closed { timecode } => {
            assert(b.ring.slots == a.ring.slots);
        },
        Phase::Counted { timecode } => {
            assert(b.ring.slots == a.ring.slots);
        },
    }
}

/// `moments` are the states of a ring between the writes of its writer.
pub open spec fn history(moments: Seq<Moment>) -> bool {
    &&& moments.len() > 0
    &&& sound(moments[0])
    &&& forall|i: int, j: int|
        0 <= i && j == i + 1 && j < moments.len() ==> #[trigger] follows(moments[i], #[trigger] moments[j])
}

proof fn a_history_is_sound(moments: Seq<Moment>, k: int)
    requires
        history(moments),
        0 <= k < moments.len(),
    ensures
        sound(moments[k]),
    decreases k,
{
    if k > 0 {
        a_history_is_sound(moments, k - 1);
        assert(follows(moments[k - 1], moments[k]));
        a_write_keeps_the_ring_sound(moments[k - 1], moments[k]);
    }
}

proof fn numbers_never_fall(moments: Seq<Moment>, slot: int, from: int, to: int)
    requires
        history(moments),
        0 <= slot < SLOT_COUNT,
        0 <= from <= to < moments.len(),
    ensures
        moments[from].ring.slots[slot].head.seq <= moments[to].ring.slots[slot].head.seq,
    decreases to - from,
{
    if from < to {
        numbers_never_fall(moments, slot, from, to - 1);
        a_history_is_sound(moments, to - 1);
        assert(follows(moments[to - 1], moments[to]));
        a_write_keeps_the_ring_sound(moments[to - 1], moments[to]);
    }
}

proof fn a_kept_number_keeps_the_slot(moments: Seq<Moment>, slot: int, from: int, at: int, to: int)
    requires
        history(moments),
        0 <= slot < SLOT_COUNT,
        0 <= from <= at <= to < moments.len(),
        complete(moments[from].ring, slot),
        moments[to].ring.slots[slot].head.seq == moments[from].ring.slots[slot].head.seq,
    ensures
        moments[at].ring.slots[slot] == moments[from].ring.slots[slot],
    decreases at - from,
{
    if from < at {
        a_kept_number_keeps_the_slot(moments, slot, from, at - 1, to);
        numbers_never_fall(moments, slot, from, at);
        numbers_never_fall(moments, slot, at, to);
        a_history_is_sound(moments, at - 1);
        assert(follows(moments[at - 1], moments[at]));
        a_write_keeps_the_ring_sound(moments[at - 1], moments[at]);
    }
}

/// A torn frame is never shown. A reader that finds the same even number
/// before and after copying a slot byte by byte, each byte at some moment in
/// between, has copied one whole frame: the one last completed there before
/// it began.
///
/// This takes the writes to be seen in the order in which they are made. The
/// stores alone do not bring that about on every machine: the opening store
/// is a release, which orders the writes before it and not the copy that
/// comes after it.
pub proof fn a_torn_frame_is_never_shown(
    moments: Seq<Moment>,
    slot: int,
    from: int,
    to: int,
    at: Seq<int>,
    copy: Seq<u8>,
    timecode_at: int,
)
    requires
        history(moments),
        0 <= slot < SLOT_COUNT,
        0 <= from <= to < moments.len(),
        complete(moments[from].ring, slot),
        moments[to].ring.slots[slot].head.seq == moments[from].ring.slots[slot].head.seq,
        from <= timecode_at <= to,
        at.len() == copy.len(),
        copy.len() == moments[from].ring.slots[slot].data.len(),
        forall|k: int| 0 <= k < at.len() ==> from <= #[trigger] at[k] <= to,
        forall|k: int| 0 <= k < at.len() ==> #[trigger] copy[k] == moments[at[k]].ring.slots[slot].data[k],
    ensures
        (moments[timecode_at].ring.slots[slot].head.timecode, copy) == moments[from].shown[slot],
{
    assert forall|k: int| 0 <= k < copy.len() implies #[trigger] copy[k] == moments[from].ring.slots[slot].data[k] by {
        assert(from <= at[k] <= to);
        a_kept_number_keeps_the_slot(moments, slot, from, at[k], to);
    }
    assert(copy =~= moments[from].ring.slots[slot].data);
    a_kept_number_keeps_the_slot(moments, slot, from, timecode_at, to);
    a_history_is_sound(moments, from);
}

/// The moments of writing one frame, from an idle ring to the next.
pub open spec fn writing(start: Moment, frame: Seq<u8>, timecode: u64) -> Seq<Moment> {
    let frames = start.ring.header.frames;
    let slot = next_slot(frames) as int;
    let seq = start.ring.slots[slot].head.seq;
    let stores = closing_stores(frames, seq, timecode);
    let opened = stored(start.ring, opening_store(frames, seq));
    let copied = with_data(opened, slot, frame);
    let timed = stored(copied, stores[0]);
    let closed = stored(timed, stores[1]);
    let counted = stored(closed, stores[2]);
    let done = stored(counted, stores[3]);
    let shown = start.shown.update(slot, (timecode, frame));
    seq![
        start,
        Moment { ring: opened, phase: Phase::Copying { frame, timecode }, shown: start.shown },
        Moment { ring: copied, phase: Phase::Copying { frame, timecode }, shown: start.shown },
        Moment { ring: timed, phase: Phase::Timed { frame, timecode }, shown: start.shown },
        Moment { ring: closed, phase: Phase::Closed { timecode }, shown },
        Moment { ring: counted, phase: Phase::Counted { timecode }, shown },
        Moment { ring: done, phase: Phase::Idle, shown },
    ]
}

/// Writing a frame as `RingWriter::write_frame` plans it is such a history,
/// and ends in the ring that `frame_written` states.
pub proof fn writing_a_frame_is_a_history(start: Moment, frame: Seq<u8>, timecode: u64)
    requires
        sound(start),
        start.phase is Idle,
        frame.len() == start.ring.slots[next_slot(start.ring.header.frames) as int].data.len(),
        start.ring.slots[next_slot(start.ring.header.frames) as int].head.seq | 1u64 < u64::MAX,
    ensures
        history(writing(start, frame, timecode)),
        writing(start, frame, timecode).last().ring == frame_written(start.ring, frame, timecode),
        sound(writing(start, frame, timecode).last()),
{
    let moments = writing(start, frame, timecode);
    let frames = start.ring.header.frames;
    let slot = next_slot(frames) as int;
    let seq = start.ring.slots[slot].head.seq;
    assert(0 <= slot < SLOT_COUNT);
    odd_then_even(seq);
    let odd = seq | 1u64;
    assert((seq | 1u64) | 1u64 == seq | 1u64) by (bit_vector);
    after_closing(moments[2].ring, frames, seq, timecode);
    assert(moments[2].ring.slots[slot].data == frame);
    assert(moments[2].ring.slots[slot].head.seq == odd);
    assert(moments[3].ring.slots[slot].head.seq == odd);
    assert(closing_stores(frames, odd, timecode) =~= closing_stores(frames, seq, timecode));
    assert(follows(moments[0], moments[1]));
    assert(follows(moments[1], moments[2]));
    assert(follows(moments[2], moments[3]));
    assert(follows(moments[3], moments[4]));
    assert(follows(moments[4], moments[5]));
    assert(follows(moments[5], moments[6]));
    a_history_is_sound(moments, 6);
}

} // verus!
