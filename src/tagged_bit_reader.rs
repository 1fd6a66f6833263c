use vstd::prelude::*;

use crate::bitreader::{spec_bool, spec_string, spec_u32, spec_u64, spec_u8, spec_varuint, Bitreader};
use crate::crdt::{spec_crdt_id, CrdtId, LwwValue};
use crate::parse_error::{agrees, and_next, Decoded, ParseError, ParseErrorKind};

verus! {

/// What follows a tag: one, four or eight bytes, a length-prefixed subblock, or an id.
#[derive(Debug, Clone, Copy, PartialEq, Eq, Structural)]
pub enum TagType {
    ID,
    Length4,
    Byte8,
    Byte4,
    Byte1,
}

impl View for TagType {
    type V = TagType;

    open spec fn view(&self) -> TagType {
        *self
    }
}

/// The type named by the low four bits of a tag.
pub open spec fn tag_type_of(code: int) -> Option<TagType> {
    if code == 0x1 {
        Some(TagType::Byte1)
    } else if code == 0x4 {
        Some(TagType::Byte4)
    } else if code == 0x8 {
        Some(TagType::Byte8)
    } else if code == 0xC {
        Some(TagType::Length4)
    } else if code == 0xF {
        Some(TagType::ID)
    } else {
        None
    }
}

pub open spec fn tag_code(t: TagType) -> int {
    match t {
        TagType::Byte1 => 0x1,
        TagType::Byte4 => 0x4,
        TagType::Byte8 => 0x8,
        TagType::Length4 => 0xC,
        TagType::ID => 0xF,
    }
}

impl TagType {
    pub fn from_code(value: u32) -> (r: Result<TagType, ParseError>)
        ensures
            match tag_type_of(value as int) {
                Some(t) => r == Ok::<TagType, ParseError>(t),
                None => r matches Err(e) && e.kind == ParseErrorKind::InvalidInput,
            },
    {
        match value {
            0x1 => Ok(TagType::Byte1),
            0x4 => Ok(TagType::Byte4),
            0x8 => Ok(TagType::Byte8),
            0xC => Ok(TagType::Length4),
            0xF => Ok(TagType::ID),
            _ => Err(ParseError::invalid("Invalid tag type")),
        }
    }
}

/// A field's tag: its index and the type of what follows.
#[derive(Debug, Clone, Copy, PartialEq, Eq, Structural)]
pub struct Tag {
    pub index: u32,
    pub tag_type: TagType,
}

impl View for Tag {
    type V = Tag;

    open spec fn view(&self) -> Tag {
        *self
    }
}

impl Tag {
    /// Checks that this tag is the one expected.
    pub fn validate(&self, tag_type: TagType, index: u32) -> (r: Result<(), ParseError>)
        ensures
            r is Ok <==> (self.tag_type == tag_type && self.index == index),
            r matches Err(e) ==> e.kind == ParseErrorKind::InvalidInput,
    {
        if self.tag_type != tag_type {
            return Err(ParseError::invalid("Invalid tag type"));
        }
        if self.index != index {
            return Err(ParseError::invalid("Invalid tag index"));
        }
        Ok(())
    }
}

/// A tag read as a varuint: index in the high bits, type in the low four.
pub open spec fn spec_any_tag(d: Seq<u8>, p: int) -> Decoded<Tag> {
    and_next(spec_varuint(d, p), |x: u32, p1: int|
        match tag_type_of(x as int % 16) {
            Some(t) => Decoded::Done(Tag { index: (x as int / 16) as u32, tag_type: t }, p1),
            None => Decoded::Fail(ParseErrorKind::InvalidInput),
        })
}

/// A tag that must be `(index, tag_type)`.
pub open spec fn spec_tag(d: Seq<u8>, p: int, index: u32, tag_type: TagType) -> Decoded<Tag> {
    and_next(spec_any_tag(d, p), |t: Tag, p1: int|
        if t.tag_type == tag_type && t.index == index {
            Decoded::Done(t, p1)
        } else {
            Decoded::Fail(ParseErrorKind::InvalidInput)
        })
}

/// A length-prefixed region: its tag, its declared size, and where its content starts.
#[derive(Debug, Clone, Copy, PartialEq, Eq, Structural)]
pub struct SubBlock {
    pub tag: Tag,
    pub size: u32,
    pub position: u64,
}

impl View for SubBlock {
    type V = SubBlock;

    open spec fn view(&self) -> SubBlock {
        *self
    }
}

impl SubBlock {
    /// Where the content must end.
    pub open spec fn end(self) -> int {
        self.position + self.size
    }

    /// Checks that the reader stands exactly where this subblock's content ends.
    pub fn validate_size(&self, reader: &TaggedBitreader) -> (r: Result<(), ParseError>)
        ensures
            r is Ok <==> reader.at() == self.end(),
            r matches Err(e) ==> e.kind == ParseErrorKind::InvalidInput,
    {
        let end_offset = reader.bit_reader.position();
        if self.size as u64 > u64::MAX - self.position || end_offset != self.position + self.size as u64 {
            return Err(ParseError::invalid("Did not read expected size of subblock"));
        }
        Ok(())
    }

    /// Checks that this subblock's tag has the given index.
    pub fn validate_tag(self, index: u32) -> (r: Result<SubBlock, ParseError>)
        ensures
            r is Ok <==> (self.tag.tag_type == TagType::Length4 && self.tag.index == index),
            r matches Ok(b) ==> b == self,
            r matches Err(e) ==> e.kind == ParseErrorKind::InvalidInput,
    {
        self.tag.validate(TagType::Length4, index)?;
        Ok(self)
    }
}

/// Closes a subblock: the content must have ended where its size says.
pub open spec fn spec_close<T>(b: SubBlock, value: T, p: int) -> Decoded<T> {
    if p == b.end() {
        Decoded::Done(value, p)
    } else {
        Decoded::Fail(ParseErrorKind::InvalidInput)
    }
}

pub struct TaggedBitreader {
    pub bit_reader: Bitreader,
}

impl TaggedBitreader {
    pub open spec fn bytes(&self) -> Seq<u8> {
        self.bit_reader.bytes()
    }

    pub open spec fn at(&self) -> int {
        self.bit_reader.at()
    }

    pub fn new(bit_reader: Bitreader) -> (r: TaggedBitreader)
        ensures
            r.bit_reader == bit_reader,
    {
        TaggedBitreader { bit_reader }
    }

    pub fn read_tag(&mut self, index: u32, tag_type: TagType) -> (r: Result<Tag, ParseError>)
        ensures
            final(self).bytes() == old(self).bytes(),
            agrees(r, spec_tag(old(self).bytes(), old(self).at(), index, tag_type), final(self).at()),
    {
        let x = self.bit_reader.read_varuint()?;
        let tag = Tag { index: x / 16, tag_type: TagType::from_code(x % 16)? };
        tag.validate(tag_type, index)?;
        Ok(tag)
    }

    pub fn read_id(&mut self, index: u32) -> (r: Result<CrdtId, ParseError>)
        ensures
            final(self).bytes() == old(self).bytes(),
            agrees(r, spec_id(old(self).bytes(), old(self).at(), index), final(self).at()),
    {
        self.read_tag(index, TagType::ID)?;
        let part1 = self.bit_reader.read_u8()?;
        let part2 = self.bit_reader.read_varuint()?;
        Ok(CrdtId { part1, part2 })
    }

    pub fn read_bool(&mut self, index: u32) -> (r: Result<bool, ParseError>)
        ensures
            final(self).bytes() == old(self).bytes(),
            agrees(r, spec_tagged_bool(old(self).bytes(), old(self).at(), index), final(self).at()),
    {
        self.read_tag(index, TagType::Byte1)?;
        self.bit_reader.read_bool()
    }

    pub fn read_u8(&mut self, index: u32) -> (r: Result<u8, ParseError>)
        ensures
            final(self).bytes() == old(self).bytes(),
            agrees(r, spec_tagged_u8(old(self).bytes(), old(self).at(), index), final(self).at()),
    {
        self.read_tag(index, TagType::Byte1)?;
        self.bit_reader.read_u8()
    }

    pub fn read_u32(&mut self, index: u32) -> (r: Result<u32, ParseError>)
        ensures
            final(self).bytes() == old(self).bytes(),
            agrees(r, spec_tagged_u32(old(self).bytes(), old(self).at(), index), final(self).at()),
    {
        self.read_tag(index, TagType::Byte4)?;
        self.bit_reader.read_u32()
    }

    /// A four-byte field holding the bit pattern of an `f32`.
    pub fn read_f32_bits(&mut self, index: u32) -> (r: Result<u32, ParseError>)
        ensures
            final(self).bytes() == old(self).bytes(),
            agrees(r, spec_tagged_u32(old(self).bytes(), old(self).at(), index), final(self).at()),
    {
        self.read_tag(index, TagType::Byte4)?;
        self.bit_reader.read_f32_bits()
    }

    /// An eight-byte field holding the bit pattern of an `f64`.
    pub fn read_f64_bits(&mut self, index: u32) -> (r: Result<u64, ParseError>)
        ensures
            final(self).bytes() == old(self).bytes(),
            agrees(r, spec_tagged_u64(old(self).bytes(), old(self).at(), index), final(self).at()),
    {
        self.read_tag(index, TagType::Byte8)?;
        self.bit_reader.read_f64_bits()
    }

    /// Whether the next tag is `(index, tag_type)`. The cursor does not move.
    pub fn has_tag(&mut self, index: u32, tag_type: TagType) -> (r: Result<bool, ParseError>)
        ensures
            final(self).bytes() == old(self).bytes(),
            final(self).at() == old(self).at(),
            r == Ok::<bool, ParseError>(spec_tag(old(self).bytes(), old(self).at(), index, tag_type).is_done()),
    {
        let pos = self.bit_reader.position();
        let has_tag = self.read_tag(index, tag_type).is_ok();
        self.bit_reader.set_position(pos);
        Ok(has_tag)
    }

    pub fn read_subblock(&mut self, index: u32) -> (r: Result<SubBlock, ParseError>)
        ensures
            final(self).bytes() == old(self).bytes(),
            agrees(r, spec_subblock(old(self).bytes(), old(self).at(), index), final(self).at()),
    {
        let tag = self.read_tag(index, TagType::Length4)?;
        let size = self.bit_reader.read_u32()?;
        let position = self.bit_reader.position();
        Ok(SubBlock { tag, size, position })
    }

    /// Whether a subblock at `index` comes next. The cursor does not move.
    pub fn has_subblock(&mut self, index: u32) -> (r: Result<bool, ParseError>)
        ensures
            final(self).bytes() == old(self).bytes(),
            final(self).at() == old(self).at(),
            r == Ok::<bool, ParseError>(spec_tag(old(self).bytes(), old(self).at(), index, TagType::Length4).is_done()),
    {
        self.has_tag(index, TagType::Length4)
    }

    /// Reads a string body: varuint length, a flag byte (kept as it is), the text.
    pub fn read_string_body(&mut self) -> (r: Result<String, ParseError>)
        ensures
            final(self).bytes() == old(self).bytes(),
            agrees(r, spec_string_body(old(self).bytes(), old(self).at()), final(self).at()),
    {
        let length = self.bit_reader.read_varuint()?;
        let _is_ascii = self.bit_reader.read_bool()?;
        self.bit_reader.read_string(length as usize)
    }

    pub fn read_string(&mut self, index: u32) -> (r: Result<String, ParseError>)
        ensures
            final(self).bytes() == old(self).bytes(),
            agrees(r, spec_tagged_string(old(self).bytes(), old(self).at(), index), final(self).at()),
    {
        let subblock = self.read_subblock(index)?;
        let string = self.read_string_body()?;
        subblock.validate_size(self)?;
        Ok(string)
    }

    pub fn read_lww_u8(&mut self, index: u32) -> (r: Result<LwwValue<u8>, ParseError>)
        ensures
            final(self).bytes() == old(self).bytes(),
            agrees(r, spec_lww(old(self).bytes(), old(self).at(), index, |p: int| spec_tagged_u8(old(self).bytes(), p, 2)), final(self).at()),
    {
        let subblock = self.read_subblock(index)?;
        let timestamp = self.read_id(1)?;
        let value = self.read_u8(2)?;
        subblock.validate_size(self)?;
        Ok(LwwValue { timestamp, value })
    }

    pub fn read_lww_bool(&mut self, index: u32) -> (r: Result<LwwValue<bool>, ParseError>)
        ensures
            final(self).bytes() == old(self).bytes(),
            agrees(r, spec_lww(old(self).bytes(), old(self).at(), index, |p: int| spec_tagged_bool(old(self).bytes(), p, 2)), final(self).at()),
    {
        let subblock = self.read_subblock(index)?;
        let timestamp = self.read_id(1)?;
        let value = self.read_bool(2)?;
        subblock.validate_size(self)?;
        Ok(LwwValue { timestamp, value })
    }

    pub fn read_lww_id(&mut self, index: u32) -> (r: Result<LwwValue<CrdtId>, ParseError>)
        ensures
            final(self).bytes() == old(self).bytes(),
            agrees(r, spec_lww(old(self).bytes(), old(self).at(), index, |p: int| spec_id(old(self).bytes(), p, 2)), final(self).at()),
    {
        let subblock = self.read_subblock(index)?;
        let timestamp = self.read_id(1)?;
        let value = self.read_id(2)?;
        subblock.validate_size(self)?;
        Ok(LwwValue { timestamp, value })
    }

    /// A register holding the bit pattern of an `f32`.
    pub fn read_lww_f32_bits(&mut self, index: u32) -> (r: Result<LwwValue<u32>, ParseError>)
        ensures
            final(self).bytes() == old(self).bytes(),
            agrees(r, spec_lww(old(self).bytes(), old(self).at(), index, |p: int| spec_tagged_u32(old(self).bytes(), p, 2)), final(self).at()),
    {
        let subblock = self.read_subblock(index)?;
        let timestamp = self.read_id(1)?;
        let value = self.read_f32_bits(2)?;
        subblock.validate_size(self)?;
        Ok(LwwValue { timestamp, value })
    }

    /// A register holding a string: its value is a string body in a subblock at 2.
    pub fn read_lww_string(&mut self, index: u32) -> (r: Result<LwwValue<String>, ParseError>)
        ensures
            final(self).bytes() == old(self).bytes(),
            agrees(r, spec_lww(old(self).bytes(), old(self).at(), index, |p: int| spec_tagged_string(old(self).bytes(), p, 2)), final(self).at()),
    {
        let subblock = self.read_subblock(index)?;
        let timestamp = self.read_id(1)?;
        let value = self.read_string(2)?;
        subblock.validate_size(self)?;
        Ok(LwwValue { timestamp, value })
    }
}

/// A one-byte flag field at `index`.
pub open spec fn spec_tagged_bool(d: Seq<u8>, p: int, index: u32) -> Decoded<bool> {
    and_next(spec_tag(d, p, index, TagType::Byte1), |_t: Tag, p1: int| spec_bool(d, p1))
}

/// A one-byte field at `index`.
pub open spec fn spec_tagged_u8(d: Seq<u8>, p: int, index: u32) -> Decoded<u8> {
    and_next(spec_tag(d, p, index, TagType::Byte1), |_t: Tag, p1: int| spec_u8(d, p1))
}

/// A four-byte field at `index`.
pub open spec fn spec_tagged_u32(d: Seq<u8>, p: int, index: u32) -> Decoded<u32> {
    and_next(spec_tag(d, p, index, TagType::Byte4), |_t: Tag, p1: int| spec_u32(d, p1))
}

/// An eight-byte field at `index`.
pub open spec fn spec_tagged_u64(d: Seq<u8>, p: int, index: u32) -> Decoded<u64> {
    and_next(spec_tag(d, p, index, TagType::Byte8), |_t: Tag, p1: int| spec_u64(d, p1))
}

/// The head of a subblock at `index`: its tag and its size.
pub open spec fn spec_subblock(d: Seq<u8>, p: int, index: u32) -> Decoded<SubBlock> {
    and_next(spec_tag(d, p, index, TagType::Length4), |t: Tag, p1: int|
        and_next(spec_u32(d, p1), |size: u32, p2: int|
            Decoded::Done(SubBlock { tag: t, size, position: p2 as u64 }, p2)))
}

/// A string body: varuint length, a flag byte, then that many bytes of UTF-8.
pub open spec fn spec_string_body(d: Seq<u8>, p: int) -> Decoded<Seq<char>> {
    and_next(spec_varuint(d, p), |n: u32, p1: int|
        and_next(spec_bool(d, p1), |_ascii: bool, p2: int| spec_string(d, p2, n as int)))
}

/// A string field: a subblock at `index` holding a string body.
pub open spec fn spec_tagged_string(d: Seq<u8>, p: int, index: u32) -> Decoded<Seq<char>> {
    and_next(spec_subblock(d, p, index), |b: SubBlock, p1: int|
        and_next(spec_string_body(d, p1), |s: Seq<char>, p2: int| spec_close(b, s, p2)))
}

/// A register field: a subblock at `index` holding the timestamp as id 1 and
/// the value, decoded by `value`, as field 2.
pub open spec fn spec_lww<T>(d: Seq<u8>, p: int, index: u32, value: spec_fn(int) -> Decoded<T>) -> Decoded<LwwValue<T>> {
    and_next(spec_subblock(d, p, index), |b: SubBlock, p1: int|
        and_next(spec_id(d, p1, 1), |ts: CrdtId, p2: int|
            and_next(value(p2), |v: T, p3: int| spec_close(b, LwwValue { timestamp: ts, value: v }, p3))))
}

/// An id field at `index`.
pub open spec fn spec_id(d: Seq<u8>, p: int, index: u32) -> Decoded<CrdtId> {
    and_next(spec_tag(d, p, index, TagType::ID), |_t: Tag, p1: int| spec_crdt_id(d, p1))
}

/// A tag whose index or type differs from the expected ones is rejected as
/// invalid input, whatever bytes make it up.
pub proof fn lemma_wrong_tag_rejected(d: Seq<u8>, p: int, index: u32, tag_type: TagType, x: u32, e: int)
    requires
        spec_varuint(d, p) == Decoded::Done(x, e),
        !(x as int / 16 == index && x as int % 16 == tag_code(tag_type)),
    ensures
        spec_tag(d, p, index, tag_type) == Decoded::<Tag>::Fail(ParseErrorKind::InvalidInput),
{
}

/// A subblock that is read and closed takes exactly its tag, four bytes of
/// size, and the size it declares.
pub proof fn lemma_subblock_size<T>(d: Seq<u8>, p: int, index: u32, b: SubBlock, p1: int, value: T, e: int)
    requires
        d.len() <= u64::MAX,
        spec_subblock(d, p, index) == Decoded::Done(b, p1),
        spec_close(b, value, e) is Done,
    ensures
        spec_varuint(d, p) is Done,
        e == spec_varuint(d, p).end() + 4 + b.size,
        e == p + (spec_varuint(d, p).end() - p) + 4 + b.size,
{
}

} // verus!
