//! A reader for the stroke notebook files (`.rm`) of a tablet e-reader.
//!
//! Versions 3 and 5 are flat arrays of pages, layers, lines and points.
//! Version 6 is a stream of tagged blocks from which a scene tree of groups,
//! strokes and text is assembled.
use vstd::prelude::*;

pub mod bitreader;
pub mod block;
pub mod crdt;
pub mod other;
pub mod parse_error;
pub mod scene_item;
pub mod scene_tree;
pub mod shared;
pub mod tagged_bit_reader;

use crate::bitreader::{hex_digit, hex_digit_char, push_char, spec_bytes, Bitreader};
use crate::block::{spec_block, Block, BlockView};
use crate::other::{spec_page, LineView as FlatLineView, Page};
use crate::parse_error::{and_next, Decoded};
use crate::scene_tree::{assemble, blocks_view, SceneTree, SceneTreeView};
use crate::tagged_bit_reader::TaggedBitreader;

pub use crate::parse_error::{ParseError, ParseErrorKind};

verus! {

/// Length of the text header every file starts with.
pub const HEADER_LENGTH: usize = 43;

/// The header text of the oldest format, which is not read.
pub open spec fn outdated_header() -> Seq<u8> {
    seq![114, 101, 77, 97, 114, 107, 97, 98, 108, 101, 32, 108, 105, 110, 101, 115, 32, 119, 105, 116, 104, 32, 115, 101, 108, 101, 99, 116, 105, 111, 110, 115, 32, 97, 110, 100, 32, 108, 97, 121, 101, 114, 115]
}

/// What the header text of a versioned file starts with.
pub open spec fn version_prefix() -> Seq<u8> {
    seq![114, 101, 77, 97, 114, 107, 97, 98, 108, 101, 32, 46, 108, 105, 110, 101, 115, 32, 102, 105, 108, 101, 44, 32, 118, 101, 114, 115, 105, 111, 110, 61]
}

fn outdated_header_bytes() -> (r: Vec<u8>)
    ensures
        r@ == outdated_header(),
{
    vec![114, 101, 77, 97, 114, 107, 97, 98, 108, 101, 32, 108, 105, 110, 101, 115, 32, 119, 105, 116, 104, 32, 115, 101, 108, 101, 99, 116, 105, 111, 110, 115, 32, 97, 110, 100, 32, 108, 97, 121, 101, 114, 115]
}

fn version_prefix_bytes() -> (r: Vec<u8>)
    ensures
        r@ == version_prefix(),
{
    vec![114, 101, 77, 97, 114, 107, 97, 98, 108, 101, 32, 46, 108, 105, 110, 101, 115, 32, 102, 105, 108, 101, 44, 32, 118, 101, 114, 115, 105, 111, 110, 61]
}

/// How many bytes of `h` are left once trailing spaces among its first `n` are dropped.
pub open spec fn trimmed_len(h: Seq<u8>, n: int) -> int
    decreases n,
{
    if n > 0 && n <= h.len() && h[n - 1] == 0x20 {
        trimmed_len(h, n - 1)
    } else {
        n
    }
}

/// The text with its trailing spaces removed.
pub open spec fn trim_spaces(h: Seq<u8>) -> Seq<u8> {
    h.subrange(0, trimmed_len(h, h.len() as int))
}

/// The first place from `i` on where `s` holds `=`, or its length.
pub open spec fn first_equals(s: Seq<u8>, i: int) -> int
    decreases s.len() - i,
{
    if i < 0 || i >= s.len() {
        s.len() as int
    } else if s[i] == 0x3d {
        i
    } else {
        first_equals(s, i + 1)
    }
}

pub open spec fn is_digit(b: u8) -> bool {
    0x30 <= b <= 0x39
}

/// The value of a run of decimal digits, most significant first.
pub open spec fn decimal_value(s: Seq<u8>) -> int
    decreases s.len(),
{
    if s.len() == 0 {
        0
    } else {
        decimal_value(s.drop_last()) * 10 + (s.last() - 0x30)
    }
}

/// The text without a leading `+`, if it has one.
pub open spec fn strip_plus(s: Seq<u8>) -> Seq<u8> {
    if s.len() > 0 && s[0] == 0x2b {
        s.drop_first()
    } else {
        s
    }
}

/// One or more decimal digits, of a value that fits a `u32`.
pub open spec fn digits_u32(t: Seq<u8>) -> Option<u32> {
    if t.len() > 0 && (forall|i: int| 0 <= i < t.len() ==> is_digit(#[trigger] t[i])) && decimal_value(t) <= u32::MAX {
        Some(decimal_value(t) as u32)
    } else {
        None
    }
}

/// A decimal `u32`: an optional `+`, then one or more digits, of a value that fits.
pub open spec fn parse_u32(s: Seq<u8>) -> Option<u32> {
    digits_u32(strip_plus(s))
}

/// The version a header names: the text, without trailing spaces, must be
/// the version prefix followed by a decimal number (up to any further `=`).
/// The header of the oldest format, and any other text, name none.
pub open spec fn header_version(h: Seq<u8>) -> Option<u32> {
    let t = trim_spaces(h);
    let n = version_prefix().len() as int;
    if t == outdated_header() {
        None
    } else if t.len() >= n && t.subrange(0, n) == version_prefix() {
        let rest = t.subrange(n, t.len() as int);
        parse_u32(rest.subrange(0, first_equals(rest, 0)))
    } else {
        None
    }
}

/// Whether `h[start..start + pat.len()]` is `pat`.
fn matches_at(h: &Vec<u8>, start: usize, end: usize, pat: &Vec<u8>) -> (r: bool)
    requires
        start <= end <= h@.len(),
    ensures
        r == (end - start == pat@.len() && h@.subrange(start as int, end as int) == pat@),
{
    if end - start != pat.len() {
        return false;
    }
    let mut i: usize = 0;
    while i < pat.len()
        invariant
            end - start == pat@.len(),
            start <= end <= h@.len(),
            i <= pat@.len(),
            forall|j: int| 0 <= j < i ==> h@[start + j] == pat@[j],
        decreases pat@.len() - i,
    {
        if h[start + i] != pat[i] {
            assert(h@.subrange(start as int, end as int)[i as int] != pat@[i as int]);
            return false;
        }
        i = i + 1;
    }
    assert(h@.subrange(start as int, end as int) =~= pat@);
    true
}

/// Reads a decimal `u32` from `h[start..end]`.
fn parse_decimal(h: &Vec<u8>, start: usize, end: usize) -> (r: Option<u32>)
    requires
        start <= end <= h@.len(),
    ensures
        r == parse_u32(h@.subrange(start as int, end as int)),
{
    let ghost s = h@.subrange(start as int, end as int);
    let mut i = start;
    if i < end && h[i] == 0x2b {
        i = i + 1;
    }
    let ghost t = h@.subrange(i as int, end as int);
    assert(t =~= strip_plus(s));
    if i == end {
        return None;
    }
    let first = i;
    let mut acc: u64 = 0;
    let mut too_big = false;
    while i < end
        invariant
            first <= i <= end <= h@.len(),
            t == h@.subrange(first as int, end as int),
            s == h@.subrange(start as int, end as int),
            t == strip_plus(s),
            t.len() > 0,
            forall|j: int| first <= j < i ==> is_digit(#[trigger] h@[j]),
            !too_big ==> acc == decimal_value(h@.subrange(first as int, i as int)),
            !too_big ==> acc <= u32::MAX,
            too_big ==> decimal_value(h@.subrange(first as int, i as int)) > u32::MAX,
        decreases end - i,
    {
        let b = h[i];
        if !(0x30 <= b && b <= 0x39) {
            assert(t[i - first] == b);
            assert(!is_digit(t[i - first]));
            assert(!(forall|j: int| 0 <= j < t.len() ==> is_digit(#[trigger] t[j])));
            assert(digits_u32(t) is None);
            return None;
        }
        proof {
            let pre = h@.subrange(first as int, i as int);
            assert(h@.subrange(first as int, i + 1).drop_last() =~= pre);
            assert(decimal_value(h@.subrange(first as int, i + 1)) == decimal_value(pre) * 10 + (b - 0x30));
        }
        if !too_big {
            acc = acc * 10 + (b - 0x30) as u64;
            if acc > 0xFFFF_FFFF {
                too_big = true;
            }
        }
        i = i + 1;
    }
    assert(h@.subrange(first as int, end as int) =~= t);
    if too_big {
        None
    } else {
        Some(acc as u32)
    }
}

/// Reads the version a header names; see `header_version`.
fn read_header_version(h: &Vec<u8>) -> (r: Result<u32, ParseError>)
    ensures
        match header_version(h@) {
            Some(v) => r == Ok::<u32, ParseError>(v),
            None => r matches Err(e) && e.kind == ParseErrorKind::Unsupported,
        },
{
    let mut end = h.len();
    while end > 0 && h[end - 1] == 0x20
        invariant
            end <= h@.len(),
            trimmed_len(h@, h@.len() as int) == trimmed_len(h@, end as int),
        decreases end,
    {
        end = end - 1;
    }
    let ghost t = trim_spaces(h@);
    assert(t == h@.subrange(0, end as int));
    if matches_at(h, 0, end, &outdated_header_bytes()) {
        return Err(ParseError::unsupported("Unsupported outdated version"));
    }
    let prefix = version_prefix_bytes();
    if end < prefix.len() || !matches_at(h, 0, prefix.len(), &prefix) {
        assert(end >= prefix@.len() ==> t.subrange(0, prefix@.len() as int) =~= h@.subrange(0, prefix@.len() as int));
        return Err(ParseError::unsupported("Unknown version"));
    }
    assert(t.subrange(0, prefix@.len() as int) =~= h@.subrange(0, prefix@.len() as int));
    let start = prefix.len();
    let ghost rest = t.subrange(start as int, t.len() as int);
    let mut i = start;
    while i < end && h[i] != 0x3d
        invariant
            start <= i <= end <= h@.len(),
            rest == h@.subrange(start as int, end as int),
            first_equals(rest, 0) == first_equals(rest, i - start),
        decreases end - i,
    {
        i = i + 1;
    }
    assert(rest.subrange(0, first_equals(rest, 0)) =~= h@.subrange(start as int, i as int));
    match parse_decimal(h, start, i) {
        Some(v) => Ok(v),
        None => Err(ParseError::unsupported("Could not find version")),
    }
}

/// Blocks one after another from `p` until the data ends.
pub open spec fn spec_blocks_from(d: Seq<u8>, p: int, acc: Seq<BlockView>) -> Decoded<Seq<BlockView>>
    decreases d.len() - p,
{
    if p >= d.len() {
        Decoded::Done(acc, p)
    } else {
        match spec_block(d, p) {
            Decoded::Done(b, e) => if p < e <= d.len() {
                spec_blocks_from(d, e, acc.push(b))
            } else {
                Decoded::Fail(ParseErrorKind::InvalidInput)
            },
            Decoded::Fail(k) => Decoded::Fail(k),
        }
    }
}

/// A decoded file, as mathematics.
pub enum FileView {
    V6 { tree: SceneTreeView, blocks: Seq<BlockView> },
    Other { version: u32, pages: Seq<Seq<Seq<FlatLineView>>> },
}

/// A whole file from `p` on: the header, then by its version either blocks
/// until the end and the tree they make (version 6), or one page of the flat
/// format (versions 3 and 5). Other versions are not read.
pub open spec fn spec_file(d: Seq<u8>, p: int) -> Decoded<FileView> {
    and_next(spec_bytes(d, p, HEADER_LENGTH as int), |h: Seq<u8>, p1: int|
    match header_version(h) {
        None => Decoded::Fail(ParseErrorKind::Unsupported),
        Some(v) => if v == 6 {
            and_next(spec_blocks_from(d, p1, Seq::empty()), |bs: Seq<BlockView>, e: int|
            match assemble(bs) {
                Some(t) => Decoded::Done(FileView::V6 { tree: t, blocks: bs }, e),
                None => Decoded::Fail(ParseErrorKind::InvalidInput),
            })
        } else if v == 3 || v == 5 {
            and_next(spec_page(d, p1, v), |page: Seq<Seq<FlatLineView>>, e: int|
                Decoded::Done(FileView::Other { version: v, pages: seq![page] }, e))
        } else {
            Decoded::Fail(ParseErrorKind::Unsupported)
        },
    })
}

/// Lower-case hexadecimal digits of `n`, without leading zeros.
pub open spec fn hex_text(n: nat) -> Seq<char>
    decreases n,
{
    if n < 16 {
        seq![hex_digit(n as int)]
    } else {
        hex_text(n / 16).push(hex_digit((n % 16) as int))
    }
}

fn push_hex(s: &mut String, n: u64)
    ensures
        final(s)@ == old(s)@ + hex_text(n as nat),
    decreases n,
{
    if n >= 16 {
        push_hex(s, n / 16);
    }
    push_char(s, hex_digit_char((n % 16) as u8));
    assert(final(s)@ =~= old(s)@ + hex_text(n as nat)) by {
        if n >= 16 {
            assert(hex_text(n as nat) == hex_text((n / 16) as nat).push(hex_digit((n % 16) as int)));
        }
    }
}

/// A decoded file.
#[derive(Debug)]
pub enum RemarkableFile {
    V6 {
        /// The groups of the page and what they hold.
        tree: SceneTree,
        /// The blocks, in the order of the file.
        blocks: Vec<Block>,
    },
    Other { version: u32, pages: Vec<Page> },
}

impl View for RemarkableFile {
    type V = FileView;

    open spec fn view(&self) -> FileView {
        match self {
            RemarkableFile::V6 { tree, blocks } => FileView::V6 { tree: tree@, blocks: blocks_view(blocks@) },
            RemarkableFile::Other { version, pages } => FileView::Other {
                version: *version,
                pages: pages@.map_values(|p: Page| p@),
            },
        }
    }
}

fn read_blocks(reader: &mut TaggedBitreader) -> (r: Result<Vec<Block>, ParseError>)
    ensures
        final(reader).bytes() == old(reader).bytes(),
        match r {
            Ok(bs) => spec_blocks_from(old(reader).bytes(), old(reader).at(), Seq::empty())
                == Decoded::Done(blocks_view(bs@), final(reader).at()),
            Err(e) => spec_blocks_from(old(reader).bytes(), old(reader).at(), Seq::empty())
                == Decoded::<Seq<BlockView>>::Fail(e.kind),
        },
{
    let ghost d = reader.bytes();
    let mut blocks: Vec<Block> = Vec::new();
    assert(blocks_view(blocks@) =~= Seq::<BlockView>::empty());
    loop
        invariant
            reader.bytes() == d,
            d == old(reader).bytes(),
            spec_blocks_from(d, old(reader).at(), Seq::empty()) == spec_blocks_from(d, reader.at(), blocks_view(blocks@)),
        decreases d.len() - reader.at(),
    {
        if reader.bit_reader.eof()? {
            return Ok(blocks);
        }
        let before = reader.bit_reader.position();
        let block = Block::parse(reader)?;
        let after = reader.bit_reader.position();
        if after <= before || after > reader.bit_reader.data.len() as u64 {
            return Err(ParseError::invalid("Block did not advance"));
        }
        let ghost bv = blocks_view(blocks@);
        let ghost b = block@;
        blocks.push(block);
        assert(blocks_view(blocks@) =~= bv.push(b));
    }
}

/// The note that stands for the place of an error: either that all data had
/// been read, or the byte position in hexadecimal.
pub open spec fn context_text(len: int, p: int) -> Seq<char> {
    if p >= len {
        "error occurred after data has been read."@
    } else {
        "error occurred while parsing at byte position: "@ + hex_text(p as nat)
    }
}

/// What `RemarkableFile::read` gives for `input`: the decoded file, or an
/// error of the kind the decoder fails with, whose context names a place.
pub open spec fn read_outcome(input: Seq<u8>, r: Result<RemarkableFile, ParseError>) -> bool {
    match spec_file(input, 0) {
        Decoded::Done(f, _) => r matches Ok(file) && file@ == f,
        Decoded::Fail(k) => r matches Err(e) && e.kind == k
            && exists|p: int| 0 <= p && e.context@ == context_text(input.len() as int, p),
    }
}

/// Decoding the same bytes twice gives equal files, or errors of the same kind.
pub proof fn lemma_read_deterministic(input: Seq<u8>, r1: Result<RemarkableFile, ParseError>, r2: Result<RemarkableFile, ParseError>)
    requires
        read_outcome(input, r1),
        read_outcome(input, r2),
    ensures
        r1 is Ok <==> r2 is Ok,
        (r1 is Ok && r2 is Ok) ==> r1->Ok_0@ == r2->Ok_0@,
        (r1 is Err && r2 is Err) ==> r1->Err_0.kind == r2->Err_0.kind,
{
}

/// The header of the oldest format names no version.
pub proof fn lemma_outdated_header()
    ensures
        header_version(outdated_header()) is None,
{
    let h = outdated_header();
    assert(trimmed_len(h, h.len() as int) == h.len());
    assert(trim_spaces(h) =~= h);
}

/// Which decoder a header sends the rest of the file to: versions 3 and 5 to
/// the flat one, version 6 to the block stream; any other version, and a
/// header that names none, end in `Unsupported`.
pub proof fn lemma_version_dispatch(d: Seq<u8>)
    requires
        d.len() >= HEADER_LENGTH,
    ensures
        ({
            let v = header_version(d.subrange(0, HEADER_LENGTH as int));
            let f = spec_file(d, 0);
            &&& v is None ==> f == Decoded::<FileView>::Fail(ParseErrorKind::Unsupported)
            &&& (v matches Some(n) && n != 3 && n != 5 && n != 6) ==> f == Decoded::<FileView>::Fail(ParseErrorKind::Unsupported)
            &&& (v matches Some(n) && (n == 3 || n == 5)) ==> ((f is Done <==> spec_page(d, HEADER_LENGTH as int, v->0) is Done)
                && (f is Done ==> (f.value() matches FileView::Other { version, .. } && version == v->0)))
            &&& v == Some(6u32) ==> (f is Done ==> f.value() is V6)
        }),
{
}

impl ParseError {
    /// The same error with the place where the reader stands as its context.
    pub fn with_context_from_bitreader(self, bitreader: &Bitreader) -> (r: ParseError)
        ensures
            r.kind == self.kind,
            r.message@ == self.message@,
            r.context@ == context_text(bitreader.bytes().len() as int, bitreader.at()),
    {
        let mut e = self;
        match bitreader.eof() {
            Ok(true) => {
                e.context = "error occurred after data has been read.".to_owned();
            },
            _ => {
                let mut context = "error occurred while parsing at byte position: ".to_owned();
                push_hex(&mut context, bitreader.position());
                e.context = context;
            },
        }
        e
    }
}

impl RemarkableFile {
    /// Decodes a whole file.
    pub fn read(input: &[u8]) -> (r: Result<RemarkableFile, ParseError>)
        ensures
            read_outcome(input@, r),
    {
        let mut data: Vec<u8> = Vec::new();
        let mut i: usize = 0;
        while i < input.len()
            invariant
                i <= input@.len(),
                data@ == input@.subrange(0, i as int),
            decreases input@.len() - i,
        {
            data.push(input[i]);
            i = i + 1;
            assert(data@ =~= input@.subrange(0, i as int));
        }
        assert(data@ =~= input@);
        let mut reader = Bitreader::new(data);
        match Self::read_impl(&mut reader) {
            Ok(f) => Ok(f),
            Err(e) => Err(e.with_context_from_bitreader(&reader)),
        }
    }

    /// The format version of the file.
    pub fn version(&self) -> (r: u32)
        ensures
            r == match self@ {
                FileView::V6 { .. } => 6,
                FileView::Other { version, .. } => version,
            },
    {
        match self {
            RemarkableFile::V6 { .. } => 6,
            RemarkableFile::Other { version, .. } => *version,
        }
    }

    fn read_impl(reader: &mut Bitreader) -> (r: Result<RemarkableFile, ParseError>)
        ensures
            final(reader).bytes() == old(reader).bytes(),
            crate::parse_error::agrees(r, spec_file(old(reader).bytes(), old(reader).at()), final(reader).at()),
    {
        let header = reader.read_bytes(HEADER_LENGTH)?;
        let version = read_header_version(&header)?;
        if version == 6 {
            let mut tagged = TaggedBitreader::new(Bitreader { data: Vec::new(), pos: 0 });
            std::mem::swap(&mut tagged.bit_reader, reader);
            let result = read_blocks(&mut tagged);
            std::mem::swap(&mut tagged.bit_reader, reader);
            let blocks = result?;
            let tree = SceneTree::from_blocks(&blocks)?;
            return Ok(RemarkableFile::V6 { tree, blocks });
        }
        if version != 3 && version != 5 {
            return Err(ParseError::unsupported("Version is not supported"));
        }
        let page = Page::parse(version, reader)?;
        let mut pages: Vec<Page> = Vec::new();
        pages.push(page);
        let r = RemarkableFile::Other { version, pages };
        assert(r@ == (FileView::Other { version, pages: seq![page@] })) by {
            assert(pages@.map_values(|p: Page| p@) =~= seq![page@]);
        }
        Ok(r)
    }
}

proof fn lemma_blocks_childless(d: Seq<u8>, p: int, acc: Seq<BlockView>)
    requires
        crate::scene_tree::tree_nodes_childless(acc),
        spec_blocks_from(d, p, acc) is Done,
    ensures
        crate::scene_tree::tree_nodes_childless(spec_blocks_from(d, p, acc).value()),
    decreases d.len() - p,
{
    if p < d.len() {
        let b = spec_block(d, p).value();
        let e = spec_block(d, p).end();
        crate::block::lemma_block_childless(d, p);
        let acc2 = acc.push(b);
        assert forall|k: int| 0 <= k < acc2.len() implies
            (#[trigger] acc2[k] matches BlockView::TreeNode(g) ==> g.children.len() == 0) by {
            if k < acc.len() {
                assert(acc2[k] == acc[k]);
            }
        }
        lemma_blocks_childless(d, e, acc2);
    }
}

/// In the tree of every decoded version 6 file, the root group is there and
/// every child group refers to a group of the tree.
pub proof fn lemma_decoded_tree_closed(d: Seq<u8>)
    requires
        spec_file(d, 0) matches Decoded::Done(FileView::V6 { .. }, _),
    ensures
        spec_file(d, 0) matches Decoded::Done(FileView::V6 { tree, .. }, _) && crate::scene_tree::tree_closed(tree),
{
    let bs = spec_blocks_from(d, HEADER_LENGTH as int, Seq::empty());
    lemma_blocks_childless(d, HEADER_LENGTH as int, Seq::empty());
    crate::scene_tree::lemma_tree_closed(bs.value());
}

} // verus!
