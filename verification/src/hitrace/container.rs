//! The Hitrace container: 1024-byte section headers, each followed by its
//! body; the body of a protobuf section is a run of frames, each a
//! little-endian `u32` length and that many bytes.
use vstd::prelude::*;

verus! {

/// Size of a section header in bytes.
pub const HEADER_SIZE: usize = 1024;

/// Magic number at the start of every section header.
pub const HEADER_MAGIC: u64 = 0x464F_5250_534F_484F;

/// Section type of a protobuf section.
pub const PROTOBUF_SECTION: u32 = 0;

/// The little-endian `u32` at `o`.
pub open spec fn le_u32(b: Seq<u8>, o: int) -> u32 {
    (b[o] as u32) | ((b[o + 1] as u32) << 8u32) | ((b[o + 2] as u32) << 16u32) | ((b[o + 3] as u32)
        << 24u32)
}

/// The little-endian `u64` at `o`.
pub open spec fn le_u64(b: Seq<u8>, o: int) -> u64 {
    (b[o] as u64) | ((b[o + 1] as u64) << 8u64) | ((b[o + 2] as u64) << 16u64) | ((b[o + 3] as u64)
        << 24u64) | ((b[o + 4] as u64) << 32u64) | ((b[o + 5] as u64) << 40u64) | ((b[o
        + 6] as u64) << 48u64) | ((b[o + 7] as u64) << 56u64)
}

/// Reads the little-endian `u32` at `o`.
pub fn read_u32(b: &[u8], o: usize) -> (r: u32)
    requires
        o + 4 <= b.len(),
    ensures
        r == le_u32(b@, o as int),
{
    (b[o] as u32) | ((b[o + 1] as u32) << 8u32) | ((b[o + 2] as u32) << 16u32) | ((b[o + 3] as u32)
        << 24u32)
}

/// Reads the little-endian `u64` at `o`.
pub fn read_u64(b: &[u8], o: usize) -> (r: u64)
    requires
        o + 8 <= b.len(),
    ensures
        r == le_u64(b@, o as int),
{
    (b[o] as u64) | ((b[o + 1] as u64) << 8u64) | ((b[o + 2] as u64) << 16u64) | ((b[o + 3] as u64)
        << 24u64) | ((b[o + 4] as u64) << 32u64) | ((b[o + 5] as u64) << 40u64) | ((b[o
        + 6] as u64) << 48u64) | ((b[o + 7] as u64) << 56u64)
}

/// Why the container is malformed; each names the byte where it was found.
#[derive(Debug, Clone, Copy, PartialEq, Eq, Structural)]
pub enum ContainerError {
    /// The file is empty, shorter than one section header.
    ShortHeader,
    /// A section header is cut off at `offset`.
    TruncatedHeader { offset: usize },
    /// The section header at `offset` does not start with the magic number.
    BadMagic { offset: usize },
    /// The section length at `offset` does not fit in `usize`.
    LengthNotRepresentable { offset: usize },
    /// The section length at `offset` is shorter than its own header.
    BadLength { length: usize, offset: usize },
    /// The body of an unsupported section, at `offset`, is cut off.
    TruncatedBody { offset: usize },
    /// The frame length at `offset` is cut off.
    TruncatedFrameLength { offset: usize },
    /// The frame that starts at `offset` ends past `usize::MAX`.
    FrameLengthOverflow { offset: usize },
    /// The frame at `offset` runs past its section or the file.
    TruncatedFrame { offset: usize },
    /// The section at `offset` ends past `usize::MAX`.
    SectionLengthOverflow { offset: usize },
}

/// What the container holds, in file order.
#[derive(Debug, Clone, Copy, PartialEq, Eq, Structural)]
pub enum ContainerItem {
    /// A section whose type the importer does not read, with its header offset.
    Section { data_type: u32, offset: usize },
    /// A protobuf frame: its bytes are `start..end` of the file.
    Frame { start: usize, end: usize },
}

/// What a run of items ends with: the end of the file, or an error.
pub type Layout = (Seq<ContainerItem>, Option<ContainerError>);

/// The frames of a protobuf body of `body_length` bytes at `body_offset`,
/// from body offset `off` on.
pub open spec fn sp_frames(b: Seq<u8>, body_offset: int, body_length: int, off: int) -> Layout
    decreases body_length - off,
{
    if off >= body_length || off < 0 {
        (Seq::empty(), None)
    } else if body_length - off < 4 || body_offset + off + 4 > b.len() {
        (Seq::empty(), Some(ContainerError::TruncatedFrameLength { offset: (body_offset + off) as usize }))
    } else {
        let length = le_u32(b, body_offset + off) as int;
        let frame_start = off + 4;
        let frame_end = frame_start + length;
        if frame_end > usize::MAX {
            (Seq::empty(), Some(ContainerError::FrameLengthOverflow { offset: (body_offset + off) as usize }))
        } else if frame_end > body_length {
            (Seq::empty(), Some(ContainerError::TruncatedFrame { offset: (body_offset + off) as usize }))
        } else if body_offset + frame_end > b.len() {
            (Seq::empty(), Some(ContainerError::TruncatedFrame { offset: (body_offset + frame_start) as usize }))
        } else {
            let rest = sp_frames(b, body_offset, body_length, frame_end);
            (
                seq![ContainerItem::Frame { start: (body_offset + frame_start) as usize, end: (body_offset + frame_end) as usize }]
                    + rest.0,
                rest.1,
            )
        }
    }
}

/// The sections from the header at `offset` on.
pub open spec fn sp_sections(b: Seq<u8>, offset: int) -> Layout
    decreases b.len() - offset,
{
    if offset >= b.len() || offset < 0 {
        (Seq::empty(), None)
    } else if b.len() - offset < HEADER_SIZE {
        (Seq::empty(), Some(ContainerError::TruncatedHeader { offset: offset as usize }))
    } else if le_u64(b, offset) != HEADER_MAGIC {
        (Seq::empty(), Some(ContainerError::BadMagic { offset: offset as usize }))
    } else if le_u64(b, offset + 8) > usize::MAX {
        (Seq::empty(), Some(ContainerError::LengthNotRepresentable { offset: offset as usize }))
    } else if le_u64(b, offset + 8) < HEADER_SIZE {
        (
            Seq::empty(),
            Some(ContainerError::BadLength { length: le_u64(b, offset + 8) as usize, offset: offset as usize }),
        )
    } else {
        let length = le_u64(b, offset + 8) as int;
        let data_type = le_u32(b, offset + 56);
        let body_offset = offset + HEADER_SIZE;
        let body_length = length - HEADER_SIZE;
        let body: Layout = if data_type != PROTOBUF_SECTION {
            (
                seq![ContainerItem::Section { data_type, offset: offset as usize }],
                if body_offset + body_length > b.len() {
                    Some(ContainerError::TruncatedBody { offset: body_offset as usize })
                } else {
                    None
                },
            )
        } else {
            sp_frames(b, body_offset, body_length, 0)
        };
        if body.1 is Some {
            body
        } else if offset + length > usize::MAX {
            (body.0, Some(ContainerError::SectionLengthOverflow { offset: offset as usize }))
        } else if offset + length >= b.len() {
            body
        } else {
            let rest = sp_sections(b, offset + length);
            (body.0 + rest.0, rest.1)
        }
    }
}

/// The layout of a whole container file: its sections and frames in
/// order, and the error that ends it early, if any.
pub open spec fn sp_container(b: Seq<u8>) -> Layout {
    if b.len() == 0 {
        (Seq::empty(), Some(ContainerError::ShortHeader))
    } else {
        sp_sections(b, 0)
    }
}

fn frames(
    b: &[u8],
    body_offset: usize,
    body_length: usize,
    items: &mut Vec<ContainerItem>,
) -> (r: Option<ContainerError>)
    requires
        body_offset <= b.len(),
    ensures
        (final(items)@, r) == ({
            let rest = sp_frames(b@, body_offset as int, body_length as int, 0);
            (old(items)@ + rest.0, rest.1)
        }),
        r is None ==> body_offset + body_length <= b.len(),
{
    let ghost start_items = items@;
    let mut off: usize = 0;
    assert(start_items + Seq::<ContainerItem>::empty() =~= start_items);
    while off < body_length
        invariant
            start_items == old(items)@,
            off <= body_length,
            body_offset <= b.len(),
            body_offset + off <= b.len(),
            ({
                let whole = sp_frames(b@, body_offset as int, body_length as int, 0);
                let rest = sp_frames(b@, body_offset as int, body_length as int, off as int);
                start_items + whole.0 == items@ + rest.0 && whole.1 == rest.1
            }),
        decreases body_length - off,
    {
        assert(items@ + Seq::<ContainerItem>::empty() =~= items@);
        if body_length - off < 4 || b.len() - (body_offset + off) < 4 {
            return Some(ContainerError::TruncatedFrameLength { offset: body_offset + off });
        }
        let length = read_u32(b, body_offset + off) as usize;
        let frame_start = off + 4;
        if length > usize::MAX - frame_start {
            return Some(ContainerError::FrameLengthOverflow { offset: body_offset + off });
        }
        let frame_end = frame_start + length;
        if frame_end > body_length {
            return Some(ContainerError::TruncatedFrame { offset: body_offset + off });
        }
        if frame_end > b.len() - body_offset {
            return Some(ContainerError::TruncatedFrame { offset: body_offset + frame_start });
        }
        let ghost before = items@;
        items.push(ContainerItem::Frame { start: body_offset + frame_start, end: body_offset + frame_end });
        proof {
            let rest = sp_frames(b@, body_offset as int, body_length as int, frame_end as int);
            assert(items@ + rest.0 =~= before + (seq![ContainerItem::Frame { start: (body_offset + frame_start) as usize, end: (body_offset + frame_end) as usize }] + rest.0));
        }
        off = frame_end;
    }
    assert(items@ + Seq::<ContainerItem>::empty() =~= items@);
    None
}

/// Lays out a whole container file: its unsupported sections and its
/// frames, in order, and the error that ends it early, if any.
pub fn container_layout(b: &[u8]) -> (r: (Vec<ContainerItem>, Option<ContainerError>))
    ensures
        (r.0@, r.1) == sp_container(b@),
{
    let mut items: Vec<ContainerItem> = Vec::new();
    if b.len() == 0 {
        return (items, Some(ContainerError::ShortHeader));
    }
    let mut offset: usize = 0;
    assert(Seq::<ContainerItem>::empty() + sp_sections(b@, 0).0 =~= sp_sections(b@, 0).0);
    while offset < b.len()
        invariant
            offset <= b.len(),
            b.len() > 0,
            ({
                let whole = sp_container(b@);
                let rest = sp_sections(b@, offset as int);
                whole.0 == items@ + rest.0 && whole.1 == rest.1
            }),
        decreases b.len() - offset,
    {
        assert(items@ + Seq::<ContainerItem>::empty() =~= items@);
        if b.len() - offset < HEADER_SIZE {
            return (items, Some(ContainerError::TruncatedHeader { offset }));
        }
        if read_u64(b, offset) != HEADER_MAGIC {
            return (items, Some(ContainerError::BadMagic { offset }));
        }
        let length64 = read_u64(b, offset + 8);
        if length64 > usize::MAX as u64 {
            return (items, Some(ContainerError::LengthNotRepresentable { offset }));
        }
        let length = length64 as usize;
        if length < HEADER_SIZE {
            return (items, Some(ContainerError::BadLength { length, offset }));
        }
        let data_type = read_u32(b, offset + 56);
        let body_offset = offset + HEADER_SIZE;
        let body_length = length - HEADER_SIZE;
        let ghost before = items@;
        if data_type != PROTOBUF_SECTION {
            items.push(ContainerItem::Section { data_type, offset });
            if body_length > b.len() - body_offset {
                return (items, Some(ContainerError::TruncatedBody { offset: body_offset }));
            }
        } else {
            match frames(b, body_offset, body_length, &mut items) {
                Some(e) => return (items, Some(e)),
                None => {},
            }
        }
        if length > usize::MAX - offset {
            return (items, Some(ContainerError::SectionLengthOverflow { offset }));
        }
        if offset + length >= b.len() {
            return (items, None);
        }
        proof {
            let rest = sp_sections(b@, (offset + length) as int);
            let body = if data_type != PROTOBUF_SECTION {
                seq![ContainerItem::Section { data_type, offset }]
            } else {
                sp_frames(b@, body_offset as int, body_length as int, 0).0
            };
            assert(items@ == before + body);
            assert(items@ + rest.0 =~= before + (body + rest.0));
        }
        offset = offset + length;
    }
    assert(items@ + Seq::<ContainerItem>::empty() =~= items@);
    (items, None)
}

/// Where an item starts: a frame's first byte, a section's header.
pub open spec fn item_pos(it: ContainerItem) -> int {
    match it {
        ContainerItem::Frame { start, .. } => start as int,
        ContainerItem::Section { offset, .. } => offset as int,
    }
}

/// Where an item's own bytes end: a frame's end, a section header's end.
pub open spec fn item_limit(it: ContainerItem) -> int {
    match it {
        ContainerItem::Frame { end, .. } => end as int,
        ContainerItem::Section { offset, .. } => offset + HEADER_SIZE,
    }
}

/// The items lie within `lo..hi`, in order, none overlapping the next.
pub open spec fn items_laid_out(items: Seq<ContainerItem>, lo: int, hi: int) -> bool {
    &&& forall|i: int| 0 <= i < items.len() ==> lo <= item_pos(#[trigger] items[i]) <= item_limit(items[i]) <= hi
    &&& forall|i: int, j: int| 0 <= i < j < items.len() ==> item_limit(#[trigger] items[i]) <= item_pos(#[trigger] items[j])
}

proof fn lemma_laid_out_concat(a: Seq<ContainerItem>, b: Seq<ContainerItem>, lo: int, mid: int, hi: int)
    requires
        lo <= mid <= hi,
        items_laid_out(a, lo, mid),
        items_laid_out(b, mid, hi),
    ensures
        items_laid_out(a + b, lo, hi),
{
    let c = a + b;
    assert forall|i: int| 0 <= i < c.len() implies lo <= item_pos(#[trigger] c[i]) <= item_limit(c[i]) <= hi by {
        if i < a.len() {
            assert(c[i] == a[i]);
        } else {
            assert(c[i] == b[i - a.len()]);
        }
    }
    assert forall|i: int, j: int| 0 <= i < j < c.len() implies item_limit(#[trigger] c[i]) <= item_pos(#[trigger] c[j]) by {
        if j < a.len() {
            assert(c[i] == a[i] && c[j] == a[j]);
        } else if i >= a.len() {
            assert(c[i] == b[i - a.len()] && c[j] == b[j - a.len()]);
        } else {
            assert(c[i] == a[i] && c[j] == b[j - a.len()]);
        }
    }
}

proof fn lemma_frames_laid_out(b: Seq<u8>, body_offset: int, body_length: int, off: int)
    requires
        0 <= body_offset,
        0 <= off,
        b.len() <= usize::MAX,
    ensures
        items_laid_out(sp_frames(b, body_offset, body_length, off).0, body_offset + off, body_offset + body_length),
        items_laid_out(sp_frames(b, body_offset, body_length, off).0, body_offset + off, b.len() as int),
    decreases body_length - off,
{
    if off >= body_length || off < 0 {
    } else if body_length - off < 4 || body_offset + off + 4 > b.len() {
    } else {
        let length = le_u32(b, body_offset + off) as int;
        let frame_start = off + 4;
        let frame_end = frame_start + length;
        if frame_end > usize::MAX || frame_end > body_length || body_offset + frame_end > b.len() {
        } else {
            lemma_frames_laid_out(b, body_offset, body_length, frame_end);
            let first = seq![ContainerItem::Frame { start: (body_offset + frame_start) as usize, end: (body_offset + frame_end) as usize }];
            let rest = sp_frames(b, body_offset, body_length, frame_end);
            assert(items_laid_out(first, body_offset + off, body_offset + frame_end));
            lemma_laid_out_concat(first, rest.0, body_offset + off, body_offset + frame_end, body_offset + body_length);
            lemma_laid_out_concat(first, rest.0, body_offset + off, body_offset + frame_end, b.len() as int);
        }
    }
}

proof fn lemma_sections_laid_out(b: Seq<u8>, offset: int)
    requires
        0 <= offset,
        b.len() <= usize::MAX,
    ensures
        items_laid_out(sp_sections(b, offset).0, offset, b.len() as int),
    decreases b.len() - offset,
{
    if offset >= b.len() || offset < 0 {
    } else if b.len() - offset < HEADER_SIZE || le_u64(b, offset) != HEADER_MAGIC || le_u64(b, offset + 8) > usize::MAX
        || le_u64(b, offset + 8) < HEADER_SIZE {
    } else {
        let length = le_u64(b, offset + 8) as int;
        let data_type = le_u32(b, offset + 56);
        let body_offset = offset + HEADER_SIZE;
        let body_length = length - HEADER_SIZE;
        let body: Layout = if data_type != PROTOBUF_SECTION {
            (
                seq![ContainerItem::Section { data_type, offset: offset as usize }],
                if body_offset + body_length > b.len() {
                    Some(ContainerError::TruncatedBody { offset: body_offset as usize })
                } else {
                    None
                },
            )
        } else {
            sp_frames(b, body_offset, body_length, 0)
        };
        if data_type != PROTOBUF_SECTION {
            assert(items_laid_out(body.0, offset, b.len() as int));
            assert(items_laid_out(body.0, offset, offset + length));
        } else {
            lemma_frames_laid_out(b, body_offset, body_length, 0);
        }
        if body.1 is None && offset + length <= usize::MAX && offset + length < b.len() {
            lemma_sections_laid_out(b, offset + length);
            lemma_laid_out_concat(body.0, sp_sections(b, offset + length).0, offset, offset + length, b.len() as int);
        }
    }
}

/// The items of a container lie inside the file, in file order, each
/// ending before the next begins; a frame comes after its length.
pub proof fn lemma_container_laid_out(b: Seq<u8>)
    requires
        b.len() <= usize::MAX,
    ensures
        items_laid_out(sp_container(b).0, 0, b.len() as int),
        forall|i: int| 0 <= i < sp_container(b).0.len() ==> (#[trigger] sp_container(b).0[i] matches ContainerItem::Frame { start, .. } ==> start >= HEADER_SIZE + 4),
{
    if b.len() > 0 {
        lemma_sections_laid_out(b, 0);
        lemma_sections_frames_after_header(b, 0);
    }
}

proof fn lemma_frames_after(b: Seq<u8>, body_offset: int, body_length: int, off: int)
    requires
        0 <= off,
        0 <= body_offset,
        b.len() <= usize::MAX,
    ensures
        forall|i: int| 0 <= i < sp_frames(b, body_offset, body_length, off).0.len() ==> (#[trigger] sp_frames(b, body_offset, body_length, off).0[i] matches ContainerItem::Frame { start, .. } && start >= body_offset + off + 4),
    decreases body_length - off,
{
    if off >= body_length || off < 0 {
    } else if body_length - off < 4 || body_offset + off + 4 > b.len() {
    } else {
        let length = le_u32(b, body_offset + off) as int;
        let frame_start = off + 4;
        let frame_end = frame_start + length;
        if frame_end > usize::MAX || frame_end > body_length || body_offset + frame_end > b.len() {
        } else {
            lemma_frames_after(b, body_offset, body_length, frame_end);
            let items = sp_frames(b, body_offset, body_length, off).0;
            let rest = sp_frames(b, body_offset, body_length, frame_end).0;
            assert forall|i: int| 0 <= i < items.len() implies (#[trigger] items[i] matches ContainerItem::Frame { start, .. } && start >= body_offset + off + 4) by {
                if i > 0 {
                    assert(items[i] == rest[i - 1]);
                }
            }
        }
    }
}

proof fn lemma_sections_frames_after_header(b: Seq<u8>, offset: int)
    requires
        0 <= offset,
        b.len() <= usize::MAX,
    ensures
        forall|i: int| 0 <= i < sp_sections(b, offset).0.len() ==> (#[trigger] sp_sections(b, offset).0[i] matches ContainerItem::Frame { start, .. } ==> start >= offset + HEADER_SIZE + 4),
    decreases b.len() - offset,
{
    if offset >= b.len() || offset < 0 {
    } else if b.len() - offset < HEADER_SIZE || le_u64(b, offset) != HEADER_MAGIC || le_u64(b, offset + 8) > usize::MAX
        || le_u64(b, offset + 8) < HEADER_SIZE {
    } else {
        let length = le_u64(b, offset + 8) as int;
        let data_type = le_u32(b, offset + 56);
        let body_offset = offset + HEADER_SIZE;
        let body_length = length - HEADER_SIZE;
        if data_type == PROTOBUF_SECTION {
            lemma_frames_after(b, body_offset, body_length, 0);
        }
        let items = sp_sections(b, offset).0;
        let body: Seq<ContainerItem> = if data_type != PROTOBUF_SECTION {
            seq![ContainerItem::Section { data_type, offset: offset as usize }]
        } else {
            sp_frames(b, body_offset, body_length, 0).0
        };
        if offset + length <= usize::MAX && offset + length < b.len() {
            lemma_sections_frames_after_header(b, offset + length);
        }
        assert forall|i: int| 0 <= i < items.len() implies (#[trigger] items[i] matches ContainerItem::Frame { start, .. } ==> start >= offset + HEADER_SIZE + 4) by {
            if i >= body.len() {
                let rest = sp_sections(b, offset + length).0;
                assert(items[i] == rest[i - body.len()]);
            } else {
                assert(items[i] == body[i]);
            }
        }
    }
}

} // verus!
