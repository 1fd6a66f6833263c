use std::collections::HashMap;

use vstd::prelude::*;

use crate::bitreader::{spec_u16, spec_u32, spec_u8, spec_uuid, spec_varuint};
use crate::crdt::{CrdtId, CrdtSequenceItem, LwwValue};
use crate::parse_error::{agrees, and_next, fold_repeat, Decoded, ParseError, ParseErrorKind};
use crate::scene_item::{
    empty_group, spec_glyph_range, spec_line, spec_text, GlyphRange, GlyphRangeView, Group, GroupView, Line,
    LineView, Text, TextView,
};
use crate::tagged_bit_reader::{
    spec_close, spec_id, spec_lww, spec_subblock, spec_tag, spec_tagged_bool, spec_tagged_string,
    spec_tagged_u32, spec_tagged_u8, SubBlock, TagType, TaggedBitreader,
};

verus! {

broadcast use vstd::std_specs::hash::group_hash_axioms;

/// The frame of a top-level block: where its payload starts, how long it is,
/// and the two format versions it declares.
#[derive(Debug, Clone, Copy, PartialEq, Eq, Structural)]
pub struct BlockInfo {
    pub start_offset: u64,
    pub size: u32,
    pub min_version: u8,
    pub current_version: u8,
}

impl View for BlockInfo {
    type V = BlockInfo;

    open spec fn view(&self) -> BlockInfo {
        *self
    }
}

impl BlockInfo {
    /// Where the payload must end.
    pub open spec fn end(self) -> int {
        self.start_offset + self.size
    }

    /// Whether the reader stands before the end of the payload.
    pub fn has_bytes_remaining(&self, reader: &TaggedBitreader) -> (r: bool)
        ensures
            r == (self.end() > reader.at()),
    {
        self.start_offset as u128 + self.size as u128 > reader.bit_reader.position() as u128
    }
}

// ---------------------------------------------------------------------------
// Migration info
// ---------------------------------------------------------------------------

#[derive(Debug, Clone, Copy, PartialEq, Eq, Structural)]
pub struct MigrationInfoBlock {
    pub migration_id: CrdtId,
    pub is_device: bool,
}

impl View for MigrationInfoBlock {
    type V = MigrationInfoBlock;

    open spec fn view(&self) -> MigrationInfoBlock {
        *self
    }
}

/// Migration info: an id as field 1 and a flag byte as field 2; one more
/// byte may follow inside the block, and is skipped when it can be read.
pub open spec fn spec_migration_info(info: BlockInfo, d: Seq<u8>, p: int) -> Decoded<MigrationInfoBlock> {
    and_next(spec_id(d, p, 1), |migration_id: CrdtId, p1: int|
    and_next(spec_tagged_u8(d, p1, 2), |flag: u8, p2: int| {
        let end = if info.end() > p2 && spec_u8(d, p2).is_done() { p2 + 1 } else { p2 };
        Decoded::Done(MigrationInfoBlock { migration_id, is_device: flag > 0 }, end)
    }))
}

impl MigrationInfoBlock {
    pub fn parse(info: &BlockInfo, reader: &mut TaggedBitreader) -> (r: Result<MigrationInfoBlock, ParseError>)
        ensures
            final(reader).bytes() == old(reader).bytes(),
            agrees(r, spec_migration_info(*info, old(reader).bytes(), old(reader).at()), final(reader).at()),
    {
        let migration_id = reader.read_id(1)?;
        let is_device = reader.read_u8(2)? > 0;
        if info.has_bytes_remaining(reader) {
            let pos = reader.bit_reader.position();
            if reader.bit_reader.read_u8().is_err() {
                reader.bit_reader.set_position(pos);
            }
        }
        Ok(MigrationInfoBlock { migration_id, is_device })
    }
}

// ---------------------------------------------------------------------------
// Authors
// ---------------------------------------------------------------------------

/// The authors of a page: author number to UUID text.
#[derive(Debug)]
pub struct AuthorsIdsBlock {
    pub authors: HashMap<u16, String>,
}

impl View for AuthorsIdsBlock {
    type V = Map<u16, Seq<char>>;

    open spec fn view(&self) -> Map<u16, Seq<char>> {
        self.authors@.map_values(|s: String| s@)
    }
}

/// An author entry: in a subblock at 0, a UUID and the author's number.
pub open spec fn spec_author(d: Seq<u8>, p: int) -> Decoded<(u16, Seq<char>)> {
    and_next(spec_subblock(d, p, 0), |b: SubBlock, p1: int|
    and_next(spec_uuid(d, p1), |uuid: Seq<char>, p2: int|
    and_next(spec_u16(d, p2), |author_id: u16, p3: int| spec_close(b, (author_id, uuid), p3))))
}

pub open spec fn author_at(d: Seq<u8>) -> spec_fn(int) -> Decoded<(u16, Seq<char>)> {
    |p: int| spec_author(d, p)
}

pub open spec fn add_author() -> spec_fn(Map<u16, Seq<char>>, (u16, Seq<char>)) -> Map<u16, Seq<char>> {
    |m: Map<u16, Seq<char>>, e: (u16, Seq<char>)| m.insert(e.0, e.1)
}

/// Authors: a varuint count, then that many entries; a later entry for the
/// same number replaces an earlier one.
pub open spec fn spec_authors(d: Seq<u8>, p: int) -> Decoded<Map<u16, Seq<char>>> {
    and_next(spec_varuint(d, p), |n: u32, p1: int|
        fold_repeat(author_at(d), add_author(), n as nat, p1, Map::empty()))
}

impl AuthorsIdsBlock {
    pub fn parse(_info: &BlockInfo, reader: &mut TaggedBitreader) -> (r: Result<AuthorsIdsBlock, ParseError>)
        ensures
            final(reader).bytes() == old(reader).bytes(),
            agrees(r, spec_authors(old(reader).bytes(), old(reader).at()), final(reader).at()),
    {
        let ghost d = reader.bytes();
        let ghost item = author_at(d);
        let count = reader.bit_reader.read_varuint()?;
        let ghost p1 = reader.at();
        let mut authors: HashMap<u16, String> = HashMap::new();
        let mut i: u32 = 0;
        assert(authors@.map_values(|s: String| s@) =~= Map::<u16, Seq<char>>::empty());
        while i < count
            invariant
                reader.bytes() == d,
                d == old(reader).bytes(),
                item == author_at(d),
                i <= count,
                spec_authors(d, old(reader).at()) == fold_repeat(item, add_author(), count as nat, p1, Map::empty()),
                fold_repeat(item, add_author(), count as nat, p1, Map::empty())
                    == fold_repeat(item, add_author(), (count - i) as nat, reader.at(), authors@.map_values(|s: String| s@)),
            decreases count - i,
        {
            assert(item(reader.at()) == spec_author(d, reader.at()));
            let subblock = reader.read_subblock(0)?;
            let uuid = reader.bit_reader.read_uuid()?;
            let author_id = reader.bit_reader.read_u16()?;
            subblock.validate_size(reader)?;
            let ghost before = authors@.map_values(|s: String| s@);
            let ghost entry = (author_id, uuid@);
            authors.insert(author_id, uuid);
            assert(authors@.map_values(|s: String| s@) =~= add_author()(before, entry));
            i = i + 1;
        }
        Ok(AuthorsIdsBlock { authors })
    }
}

// ---------------------------------------------------------------------------
// Page info
// ---------------------------------------------------------------------------

#[derive(Debug, Clone, Copy, PartialEq, Eq, Structural)]
pub struct PageInfoBlock {
    pub loads_count: u32,
    pub merges_count: u32,
    pub text_chars_count: u32,
    pub text_lines_count: u32,
}

impl View for PageInfoBlock {
    type V = PageInfoBlock;

    open spec fn view(&self) -> PageInfoBlock {
        *self
    }
}

/// Page info: four counts as fields 1 to 4, and a fifth field, skipped, when
/// the block has room left.
pub open spec fn spec_page_info(info: BlockInfo, d: Seq<u8>, p: int) -> Decoded<PageInfoBlock> {
    and_next(spec_tagged_u32(d, p, 1), |loads_count: u32, p1: int|
    and_next(spec_tagged_u32(d, p1, 2), |merges_count: u32, p2: int|
    and_next(spec_tagged_u32(d, p2, 3), |text_chars_count: u32, p3: int|
    and_next(spec_tagged_u32(d, p3, 4), |text_lines_count: u32, p4: int| {
        let v = PageInfoBlock { loads_count, merges_count, text_chars_count, text_lines_count };
        if info.end() > p4 {
            and_next(spec_tagged_u32(d, p4, 5), |_x: u32, p5: int| Decoded::Done(v, p5))
        } else {
            Decoded::Done(v, p4)
        }
    }))))
}

impl PageInfoBlock {
    pub fn parse(info: &BlockInfo, reader: &mut TaggedBitreader) -> (r: Result<PageInfoBlock, ParseError>)
        ensures
            final(reader).bytes() == old(reader).bytes(),
            agrees(r, spec_page_info(*info, old(reader).bytes(), old(reader).at()), final(reader).at()),
    {
        let loads_count = reader.read_u32(1)?;
        let merges_count = reader.read_u32(2)?;
        let text_chars_count = reader.read_u32(3)?;
        let text_lines_count = reader.read_u32(4)?;
        if info.has_bytes_remaining(reader) {
            reader.read_u32(5)?;
        }
        Ok(PageInfoBlock { loads_count, merges_count, text_chars_count, text_lines_count })
    }
}

// ---------------------------------------------------------------------------
// Tree nodes
// ---------------------------------------------------------------------------

/// The fields of a group node.
#[derive(Debug)]
pub struct TreeNodeBlock {
    pub group: Group,
}

impl View for TreeNodeBlock {
    type V = GroupView;

    open spec fn view(&self) -> GroupView {
        self.group@
    }
}

pub open spec fn string_field_2(d: Seq<u8>) -> spec_fn(int) -> Decoded<Seq<char>> {
    |p: int| spec_tagged_string(d, p, 2)
}

pub open spec fn bool_field_2(d: Seq<u8>) -> spec_fn(int) -> Decoded<bool> {
    |p: int| spec_tagged_bool(d, p, 2)
}

pub open spec fn id_field_2(d: Seq<u8>) -> spec_fn(int) -> Decoded<CrdtId> {
    |p: int| spec_id(d, p, 2)
}

pub open spec fn u8_field_2(d: Seq<u8>) -> spec_fn(int) -> Decoded<u8> {
    |p: int| spec_tagged_u8(d, p, 2)
}

pub open spec fn u32_field_2(d: Seq<u8>) -> spec_fn(int) -> Decoded<u32> {
    |p: int| spec_tagged_u32(d, p, 2)
}

/// The anchor of a group: registers at 7 (id), 8 (type), 9 (threshold) and
/// 10 (horizontal origin).
pub open spec fn spec_anchor(d: Seq<u8>, p: int) -> Decoded<(LwwValue<CrdtId>, LwwValue<u8>, LwwValue<u32>, LwwValue<u32>)> {
    and_next(spec_lww(d, p, 7, id_field_2(d)), |a: LwwValue<CrdtId>, p1: int|
    and_next(spec_lww(d, p1, 8, u8_field_2(d)), |t: LwwValue<u8>, p2: int|
    and_next(spec_lww(d, p2, 9, u32_field_2(d)), |th: LwwValue<u32>, p3: int|
    and_next(spec_lww(d, p3, 10, u32_field_2(d)), |o: LwwValue<u32>, p4: int| Decoded::Done((a, t, th, o), p4)))))
}

/// A tree node: its id as field 1, its label as register 2, its visibility as
/// register 3, then its anchor when the block has room left.
pub open spec fn spec_tree_node(info: BlockInfo, d: Seq<u8>, p: int) -> Decoded<GroupView> {
    and_next(spec_id(d, p, 1), |node_id: CrdtId, p1: int|
    and_next(spec_lww(d, p1, 2, string_field_2(d)), |label: LwwValue<Seq<char>>, p2: int|
    and_next(spec_lww(d, p2, 3, bool_field_2(d)), |visible: LwwValue<bool>, p3: int| {
        let g = GroupView { node_id, label, visible, ..empty_group(node_id) };
        if info.end() > p3 {
            and_next(spec_anchor(d, p3), |a: (LwwValue<CrdtId>, LwwValue<u8>, LwwValue<u32>, LwwValue<u32>), p4: int|
                Decoded::Done(GroupView {
                    anchor_id: Some(a.0),
                    anchor_type: Some(a.1),
                    anchor_threshold: Some(a.2),
                    anchor_origin_x: Some(a.3),
                    ..g
                }, p4))
        } else {
            Decoded::Done(g, p3)
        }
    })))
}

impl TreeNodeBlock {
    pub fn parse(info: &BlockInfo, reader: &mut TaggedBitreader) -> (r: Result<TreeNodeBlock, ParseError>)
        ensures
            final(reader).bytes() == old(reader).bytes(),
            agrees(r, spec_tree_node(*info, old(reader).bytes(), old(reader).at()), final(reader).at()),
    {
        let ghost d = reader.bytes();
        let mut group = Group::default();
        group.node_id = reader.read_id(1)?;
        group.label = reader.read_lww_string(2)?;
        assert(spec_lww(d, reader.at(), 3, bool_field_2(d)) == spec_lww(d, reader.at(), 3, |p: int| spec_tagged_bool(d, p, 2)));
        group.visible = reader.read_lww_bool(3)?;
        if info.has_bytes_remaining(reader) {
            group.anchor_id = Some(reader.read_lww_id(7)?);
            group.anchor_type = Some(reader.read_lww_u8(8)?);
            group.anchor_threshold = Some(reader.read_lww_f32_bits(9)?);
            group.anchor_origin_x = Some(reader.read_lww_f32_bits(10)?);
        }
        Ok(TreeNodeBlock { group })
    }
}

// ---------------------------------------------------------------------------
// Scene tree and root text
// ---------------------------------------------------------------------------

/// Declares a group node and the node it hangs under.
#[derive(Debug, Clone, Copy, PartialEq, Eq, Structural)]
pub struct SceneTreeBlock {
    pub tree_id: CrdtId,
    pub node_id: CrdtId,
    pub is_update: bool,
    pub parent_id: CrdtId,
}

impl View for SceneTreeBlock {
    type V = SceneTreeBlock;

    open spec fn view(&self) -> SceneTreeBlock {
        *self
    }
}

/// A scene tree entry: ids as fields 1 and 2, a flag as 3, and in a subblock
/// at 4 the parent's id as field 1.
pub open spec fn spec_scene_tree(d: Seq<u8>, p: int) -> Decoded<SceneTreeBlock> {
    and_next(spec_id(d, p, 1), |tree_id: CrdtId, p1: int|
    and_next(spec_id(d, p1, 2), |node_id: CrdtId, p2: int|
    and_next(spec_tagged_bool(d, p2, 3), |is_update: bool, p3: int|
    and_next(spec_subblock(d, p3, 4), |b: SubBlock, p4: int|
    and_next(spec_id(d, p4, 1), |parent_id: CrdtId, p5: int|
        spec_close(b, SceneTreeBlock { tree_id, node_id, is_update, parent_id }, p5))))))
}

impl SceneTreeBlock {
    pub fn parse(_info: &BlockInfo, reader: &mut TaggedBitreader) -> (r: Result<SceneTreeBlock, ParseError>)
        ensures
            final(reader).bytes() == old(reader).bytes(),
            agrees(r, spec_scene_tree(old(reader).bytes(), old(reader).at()), final(reader).at()),
    {
        let tree_id = reader.read_id(1)?;
        let node_id = reader.read_id(2)?;
        let is_update = reader.read_bool(3)?;
        let subblock = reader.read_subblock(4)?;
        let parent_id = reader.read_id(1)?;
        subblock.validate_size(reader)?;
        Ok(SceneTreeBlock { tree_id, node_id, is_update, parent_id })
    }
}

/// The page's own text.
#[derive(Debug)]
pub struct RootTextBlock {
    pub block_id: CrdtId,
    pub text: Text,
}

pub struct RootTextBlockView {
    pub block_id: CrdtId,
    pub text: TextView,
}

impl View for RootTextBlock {
    type V = RootTextBlockView;

    open spec fn view(&self) -> RootTextBlockView {
        RootTextBlockView { block_id: self.block_id, text: self.text@ }
    }
}

/// Root text: an id as field 1, then a text.
pub open spec fn spec_root_text(d: Seq<u8>, p: int) -> Decoded<RootTextBlockView> {
    and_next(spec_id(d, p, 1), |block_id: CrdtId, p1: int|
    and_next(spec_text(d, p1), |text: TextView, p2: int| Decoded::Done(RootTextBlockView { block_id, text }, p2)))
}

impl RootTextBlock {
    pub fn parse(_info: &BlockInfo, reader: &mut TaggedBitreader) -> (r: Result<RootTextBlock, ParseError>)
        ensures
            final(reader).bytes() == old(reader).bytes(),
            agrees(r, spec_root_text(old(reader).bytes(), old(reader).at()), final(reader).at()),
    {
        let block_id = reader.read_id(1)?;
        let text = Text::parse(reader)?;
        Ok(RootTextBlock { block_id, text })
    }
}

// ---------------------------------------------------------------------------
// Scene items
// ---------------------------------------------------------------------------

/// The kind of payload a scene item block carries, as written inside it.
#[derive(Debug, Clone, Copy, PartialEq, Eq, Structural)]
pub enum SceneItemType {
    SceneGlyphItemBlock,
    SceneGroupItemBlock,
    SceneLineItemBlock,
    SceneTextItemBlock,
}

pub open spec fn scene_item_type_of(v: int) -> Option<SceneItemType> {
    if v == 1 {
        Some(SceneItemType::SceneGlyphItemBlock)
    } else if v == 2 {
        Some(SceneItemType::SceneGroupItemBlock)
    } else if v == 3 {
        Some(SceneItemType::SceneLineItemBlock)
    } else if v == 5 {
        Some(SceneItemType::SceneTextItemBlock)
    } else {
        None
    }
}

impl SceneItemType {
    pub fn from_code(value: u8) -> (r: Result<SceneItemType, ParseError>)
        ensures
            match scene_item_type_of(value as int) {
                Some(t) => r == Ok::<SceneItemType, ParseError>(t),
                None => r matches Err(e) && e.kind == ParseErrorKind::InvalidInput,
            },
    {
        match value {
            1 => Ok(SceneItemType::SceneGlyphItemBlock),
            2 => Ok(SceneItemType::SceneGroupItemBlock),
            3 => Ok(SceneItemType::SceneLineItemBlock),
            5 => Ok(SceneItemType::SceneTextItemBlock),
            _ => Err(ParseError::invalid("Invalid scene item type")),
        }
    }

    /// Checks that this is the expected type.
    pub fn validate(self, scene_item_type: SceneItemType) -> (r: Result<(), ParseError>)
        ensures
            r is Ok <==> self == scene_item_type,
            r matches Err(e) ==> e.kind == ParseErrorKind::InvalidInput,
    {
        if self != scene_item_type {
            return Err(ParseError::invalid("Invalid scene item type"));
        }
        Ok(())
    }
}

/// What a scene item block can carry, with the type code it must declare
/// and how it is decoded.
pub trait ScenePayload: View + Sized {
    spec fn spec_item_type() -> SceneItemType;

    spec fn spec_payload(info: BlockInfo, d: Seq<u8>, p: int) -> Decoded<Self::V>;

    fn item_type() -> (r: SceneItemType)
        ensures
            r == Self::spec_item_type(),
    ;

    fn parse_payload(info: &BlockInfo, reader: &mut TaggedBitreader) -> (r: Result<Self, ParseError>)
        ensures
            final(reader).bytes() == old(reader).bytes(),
            agrees(r, Self::spec_payload(*info, old(reader).bytes(), old(reader).at()), final(reader).at()),
    ;
}

impl ScenePayload for GlyphRange {
    open spec fn spec_item_type() -> SceneItemType {
        SceneItemType::SceneGlyphItemBlock
    }

    open spec fn spec_payload(info: BlockInfo, d: Seq<u8>, p: int) -> Decoded<GlyphRangeView> {
        spec_glyph_range(d, p)
    }

    fn item_type() -> (r: SceneItemType) {
        SceneItemType::SceneGlyphItemBlock
    }

    fn parse_payload(info: &BlockInfo, reader: &mut TaggedBitreader) -> (r: Result<GlyphRange, ParseError>) {
        GlyphRange::parse(reader)
    }
}

/// A group item carries the node id of the group it places, as field 2.
impl ScenePayload for CrdtId {
    open spec fn spec_item_type() -> SceneItemType {
        SceneItemType::SceneGroupItemBlock
    }

    open spec fn spec_payload(info: BlockInfo, d: Seq<u8>, p: int) -> Decoded<CrdtId> {
        spec_id(d, p, 2)
    }

    fn item_type() -> (r: SceneItemType) {
        SceneItemType::SceneGroupItemBlock
    }

    fn parse_payload(info: &BlockInfo, reader: &mut TaggedBitreader) -> (r: Result<CrdtId, ParseError>) {
        reader.read_id(2)
    }
}

impl ScenePayload for Line {
    open spec fn spec_item_type() -> SceneItemType {
        SceneItemType::SceneLineItemBlock
    }

    open spec fn spec_payload(info: BlockInfo, d: Seq<u8>, p: int) -> Decoded<LineView> {
        spec_line(info, d, p)
    }

    fn item_type() -> (r: SceneItemType) {
        SceneItemType::SceneLineItemBlock
    }

    fn parse_payload(info: &BlockInfo, reader: &mut TaggedBitreader) -> (r: Result<Line, ParseError>) {
        Line::parse(info, reader)
    }
}

impl ScenePayload for Text {
    open spec fn spec_item_type() -> SceneItemType {
        SceneItemType::SceneTextItemBlock
    }

    open spec fn spec_payload(info: BlockInfo, d: Seq<u8>, p: int) -> Decoded<TextView> {
        spec_text(d, p)
    }

    fn item_type() -> (r: SceneItemType) {
        SceneItemType::SceneTextItemBlock
    }

    fn parse_payload(info: &BlockInfo, reader: &mut TaggedBitreader) -> (r: Result<Text, ParseError>) {
        Text::parse(reader)
    }
}

/// A scene item placed under a parent group, with an optional payload.
#[derive(Debug)]
pub struct SceneItemBlock<N> {
    pub parent_id: CrdtId,
    pub item: CrdtSequenceItem<Option<N>>,
}

impl<N: View> View for SceneItemBlock<N> {
    type V = SceneItemBlock<N::V>;

    open spec fn view(&self) -> SceneItemBlock<N::V> {
        SceneItemBlock {
            parent_id: self.parent_id,
            item: CrdtSequenceItem {
                item_id: self.item.item_id,
                left_id: self.item.left_id,
                right_id: self.item.right_id,
                deleted_length: self.item.deleted_length,
                value: match self.item.value {
                    Some(v) => Some(v@),
                    None => None,
                },
            },
        }
    }
}

/// The payload of a scene item: in a subblock at 6, the type code, which must
/// be the payload's own, then the payload.
pub open spec fn spec_scene_value<N: ScenePayload>(info: BlockInfo, d: Seq<u8>, p: int) -> Decoded<Option<N::V>> {
    and_next(spec_subblock(d, p, 6), |b: SubBlock, p1: int|
    and_next(spec_u8(d, p1), |code: u8, p2: int|
    match scene_item_type_of(code as int) {
        None => Decoded::Fail(ParseErrorKind::InvalidInput),
        Some(t) => if t != N::spec_item_type() {
            Decoded::Fail(ParseErrorKind::InvalidInput)
        } else {
            and_next(N::spec_payload(info, d, p2), |v: N::V, p3: int| spec_close(b, Some(v), p3))
        },
    }))
}

/// A scene item block: parent id as field 1, item id as 2, neighbours as 3
/// and 4, deleted length as 5, then the payload if a subblock at 6 follows.
pub open spec fn spec_scene_item<N: ScenePayload>(info: BlockInfo, d: Seq<u8>, p: int) -> Decoded<SceneItemBlock<N::V>> {
    and_next(spec_id(d, p, 1), |parent_id: CrdtId, p1: int|
    and_next(spec_id(d, p1, 2), |item_id: CrdtId, p2: int|
    and_next(spec_id(d, p2, 3), |left_id: CrdtId, p3: int|
    and_next(spec_id(d, p3, 4), |right_id: CrdtId, p4: int|
    and_next(spec_tagged_u32(d, p4, 5), |deleted_length: u32, p5: int|
    and_next(
        if spec_tag(d, p5, 6, TagType::Length4).is_done() {
            spec_scene_value::<N>(info, d, p5)
        } else {
            Decoded::Done(None, p5)
        },
        |value: Option<N::V>, p6: int|
            Decoded::Done(SceneItemBlock {
                parent_id,
                item: CrdtSequenceItem { item_id, left_id, right_id, deleted_length, value },
            }, p6)))))))
}

impl<N: ScenePayload> SceneItemBlock<N> {
    fn parse_value(info: &BlockInfo, reader: &mut TaggedBitreader) -> (r: Result<Option<N>, ParseError>)
        ensures
            final(reader).bytes() == old(reader).bytes(),
            match r {
                Ok(v) => spec_scene_value::<N>(*info, old(reader).bytes(), old(reader).at())
                    == Decoded::Done(match v { Some(x) => Some(x@), None => None }, final(reader).at()),
                Err(e) => spec_scene_value::<N>(*info, old(reader).bytes(), old(reader).at())
                    == Decoded::<Option<N::V>>::Fail(e.kind),
            },
    {
        let subblock = reader.read_subblock(6)?;
        let code = reader.bit_reader.read_u8()?;
        SceneItemType::from_code(code)?.validate(N::item_type())?;
        let value = N::parse_payload(info, reader)?;
        subblock.validate_size(reader)?;
        Ok(Some(value))
    }

    pub fn parse(info: &BlockInfo, reader: &mut TaggedBitreader) -> (r: Result<SceneItemBlock<N>, ParseError>)
        ensures
            final(reader).bytes() == old(reader).bytes(),
            agrees(r, spec_scene_item::<N>(*info, old(reader).bytes(), old(reader).at()), final(reader).at()),
    {
        let parent_id = reader.read_id(1)?;
        let item_id = reader.read_id(2)?;
        let left_id = reader.read_id(3)?;
        let right_id = reader.read_id(4)?;
        let deleted_length = reader.read_u32(5)?;
        let value = if reader.has_subblock(6)? {
            Self::parse_value(info, reader)?
        } else {
            None
        };
        Ok(SceneItemBlock {
            parent_id,
            item: CrdtSequenceItem { item_id, left_id, right_id, deleted_length, value },
        })
    }
}

// ---------------------------------------------------------------------------
// Blocks
// ---------------------------------------------------------------------------

/// A top-level record of a version 6 file.
#[derive(Debug)]
pub enum Block {
    MigrationInfo(MigrationInfoBlock),
    PageInfo(PageInfoBlock),
    TreeNode(TreeNodeBlock),
    SceneTree(SceneTreeBlock),
    SceneGlyphItem(SceneItemBlock<GlyphRange>),
    SceneGroupItem(SceneItemBlock<CrdtId>),
    SceneLineItem(SceneItemBlock<Line>),
    SceneTextItem(SceneItemBlock<Text>),
    AuthorsIds(AuthorsIdsBlock),
    RootText(RootTextBlock),
}

pub enum BlockView {
    MigrationInfo(MigrationInfoBlock),
    PageInfo(PageInfoBlock),
    TreeNode(GroupView),
    SceneTree(SceneTreeBlock),
    SceneGlyphItem(SceneItemBlock<GlyphRangeView>),
    SceneGroupItem(SceneItemBlock<CrdtId>),
    SceneLineItem(SceneItemBlock<LineView>),
    SceneTextItem(SceneItemBlock<TextView>),
    AuthorsIds(Map<u16, Seq<char>>),
    RootText(RootTextBlockView),
}

impl View for Block {
    type V = BlockView;

    open spec fn view(&self) -> BlockView {
        match self {
            Block::MigrationInfo(b) => BlockView::MigrationInfo(*b),
            Block::PageInfo(b) => BlockView::PageInfo(*b),
            Block::TreeNode(b) => BlockView::TreeNode(b@),
            Block::SceneTree(b) => BlockView::SceneTree(*b),
            Block::SceneGlyphItem(b) => BlockView::SceneGlyphItem(b@),
            Block::SceneGroupItem(b) => BlockView::SceneGroupItem(b@),
            Block::SceneLineItem(b) => BlockView::SceneLineItem(b@),
            Block::SceneTextItem(b) => BlockView::SceneTextItem(b@),
            Block::AuthorsIds(b) => BlockView::AuthorsIds(b@),
            Block::RootText(b) => BlockView::RootText(b@),
        }
    }
}

pub open spec fn as_block<T>(r: Decoded<T>, wrap: spec_fn(T) -> BlockView) -> Decoded<BlockView> {
    and_next(r, |v: T, e: int| Decoded::Done(wrap(v), e))
}

/// The payload of a block, chosen by its type code.
#[verifier::opaque]
pub open spec fn spec_payload(info: BlockInfo, block_type: u8, d: Seq<u8>, p: int) -> Decoded<BlockView> {
    if block_type == 0x00 {
        as_block(spec_migration_info(info, d, p), |b: MigrationInfoBlock| BlockView::MigrationInfo(b))
    } else if block_type == 0x01 {
        as_block(spec_scene_tree(d, p), |b: SceneTreeBlock| BlockView::SceneTree(b))
    } else if block_type == 0x02 {
        as_block(spec_tree_node(info, d, p), |b: GroupView| BlockView::TreeNode(b))
    } else if block_type == 0x03 {
        as_block(spec_scene_item::<GlyphRange>(info, d, p), |b: SceneItemBlock<GlyphRangeView>| BlockView::SceneGlyphItem(b))
    } else if block_type == 0x04 {
        as_block(spec_scene_item::<CrdtId>(info, d, p), |b: SceneItemBlock<CrdtId>| BlockView::SceneGroupItem(b))
    } else if block_type == 0x05 {
        as_block(spec_scene_item::<Line>(info, d, p), |b: SceneItemBlock<LineView>| BlockView::SceneLineItem(b))
    } else if block_type == 0x06 {
        as_block(spec_scene_item::<Text>(info, d, p), |b: SceneItemBlock<TextView>| BlockView::SceneTextItem(b))
    } else if block_type == 0x07 {
        as_block(spec_root_text(d, p), |b: RootTextBlockView| BlockView::RootText(b))
    } else if block_type == 0x09 {
        as_block(spec_authors(d, p), |b: Map<u16, Seq<char>>| BlockView::AuthorsIds(b))
    } else if block_type == 0x0A {
        as_block(spec_page_info(info, d, p), |b: PageInfoBlock| BlockView::PageInfo(b))
    } else {
        Decoded::Fail(ParseErrorKind::InvalidInput)
    }
}

/// A block: its payload size as a `u32`, a reserved byte, the minimal and the
/// current version, and the type code; then the payload, which must take
/// exactly `size` bytes. The current version may not be below the minimal one.
#[verifier::opaque]
pub open spec fn spec_block(d: Seq<u8>, p: int) -> Decoded<BlockView> {
    and_next(spec_u32(d, p), |size: u32, p1: int|
    and_next(spec_u8(d, p1), |_reserved: u8, p2: int|
    and_next(spec_u8(d, p2), |min_version: u8, p3: int|
    and_next(spec_u8(d, p3), |current_version: u8, p4: int|
    and_next(spec_u8(d, p4), |block_type: u8, p5: int|
    if current_version < min_version {
        Decoded::Fail(ParseErrorKind::InvalidInput)
    } else {
        let info = BlockInfo { start_offset: p5 as u64, size, min_version, current_version };
        and_next(spec_payload(info, block_type, d, p5), |b: BlockView, e: int|
            if e != info.end() {
                Decoded::Fail(ParseErrorKind::InvalidInput)
            } else {
                Decoded::Done(b, e)
            })
    })))))
}

impl Block {
    #[verifier::rlimit(100)]
    fn parse_payload(info: &BlockInfo, block_type: u8, reader: &mut TaggedBitreader) -> (r: Result<Block, ParseError>)
        ensures
            final(reader).bytes() == old(reader).bytes(),
            agrees(r, spec_payload(*info, block_type, old(reader).bytes(), old(reader).at()), final(reader).at()),
    {
        reveal(spec_payload);
        let block = match block_type {
            0x00 => Block::MigrationInfo(MigrationInfoBlock::parse(info, reader)?),
            0x01 => Block::SceneTree(SceneTreeBlock::parse(info, reader)?),
            0x02 => Block::TreeNode(TreeNodeBlock::parse(info, reader)?),
            0x03 => Block::SceneGlyphItem(SceneItemBlock::<GlyphRange>::parse(info, reader)?),
            0x04 => Block::SceneGroupItem(SceneItemBlock::<CrdtId>::parse(info, reader)?),
            0x05 => Block::SceneLineItem(SceneItemBlock::<Line>::parse(info, reader)?),
            0x06 => Block::SceneTextItem(SceneItemBlock::<Text>::parse(info, reader)?),
            0x07 => Block::RootText(RootTextBlock::parse(info, reader)?),
            0x09 => Block::AuthorsIds(AuthorsIdsBlock::parse(info, reader)?),
            0x0A => Block::PageInfo(PageInfoBlock::parse(info, reader)?),
            _ => return Err(ParseError::invalid("Unknown block type")),
        };
        Ok(block)
    }

    /// Reads one top-level block, checking that its payload takes exactly the
    /// size it declares.
    pub fn parse(reader: &mut TaggedBitreader) -> (r: Result<Block, ParseError>)
        ensures
            final(reader).bytes() == old(reader).bytes(),
            agrees(r, spec_block(old(reader).bytes(), old(reader).at()), final(reader).at()),
            r is Ok ==> final(reader).at() == old(reader).at() + 8 + crate::bitreader::le32(old(reader).bytes(), old(reader).at()),
    {
        reveal(spec_block);
        let size = reader.bit_reader.read_u32()?;
        let _reserved = reader.bit_reader.read_u8()?;
        let min_version = reader.bit_reader.read_u8()?;
        let current_version = reader.bit_reader.read_u8()?;
        let block_type = reader.bit_reader.read_u8()?;
        if current_version < min_version {
            return Err(ParseError::invalid("current_version can't be smaller than min_version"));
        }
        let start_offset = reader.bit_reader.position();
        let info = BlockInfo { start_offset, size, min_version, current_version };
        let block = Self::parse_payload(&info, block_type, reader)?;
        let end_offset = reader.bit_reader.position();
        if start_offset as u128 + size as u128 != end_offset as u128 {
            return Err(ParseError::invalid("Block did not read its declared size"));
        }
        Ok(block)
    }
}

/// A block that is read takes exactly the size it declares and the eight
/// bytes of its frame.
pub proof fn lemma_block_size(d: Seq<u8>, p: int)
    requires
        d.len() <= u64::MAX,
        spec_block(d, p) is Done,
    ensures
        0 <= p && p + 8 <= d.len(),
        spec_block(d, p).end() == p + 8 + crate::bitreader::le32(d, p),
{
    reveal(spec_block);
}

proof fn lemma_tree_node_childless(info: BlockInfo, d: Seq<u8>, p: int)
    requires
        spec_tree_node(info, d, p) is Done,
    ensures
        spec_tree_node(info, d, p).value().children.len() == 0,
{
}

/// A decoded tree node block brings no children of its own.
pub proof fn lemma_block_childless(d: Seq<u8>, p: int)
    requires
        spec_block(d, p) is Done,
    ensures
        spec_block(d, p).value() matches BlockView::TreeNode(g) ==> g.children.len() == 0,
{
    reveal(spec_block);
    reveal(spec_payload);
    let size = spec_u32(d, p).value();
    let p5 = p + 8;
    let min_version = d[p + 5];
    let current_version = d[p + 6];
    let block_type = d[p + 7];
    let info = BlockInfo { start_offset: p5 as u64, size, min_version, current_version };
    if block_type == 0x02 {
        lemma_tree_node_childless(info, d, p5);
    }
}

} // verus!
