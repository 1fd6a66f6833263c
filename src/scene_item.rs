use vstd::prelude::*;

use crate::bitreader::{spec_u16, spec_u32, spec_u64, spec_u8, spec_varuint};
use crate::block::BlockInfo;
use crate::crdt::{with_item, CrdtId, CrdtSequence, CrdtSequenceItem, LwwValue};
use crate::parse_error::{agrees, and_next, fold_repeat, repeat, Decoded, ParseError, ParseErrorKind};
use crate::shared::{pen_color_of, tool_of, PenColor, Tool};
use crate::crdt::spec_crdt_id;
use crate::tagged_bit_reader::{
    spec_close, spec_id, spec_string_body, spec_subblock, spec_tag, spec_tagged_string, spec_tagged_u32,
    spec_tagged_u64, SubBlock, TagType, TaggedBitreader,
};

verus! {

/// A sample of a stroke, as stored. Floating-point fields hold the bit
/// pattern of an `f32`.
#[derive(Debug, Clone, Copy, PartialEq, Eq, Structural)]
pub enum Point {
    /// Six `f32` fields; speed, width and pressure are stored scaled down and
    /// the direction in radians.
    V1 { x: u32, y: u32, speed: u32, direction: u32, width: u32, pressure: u32 },
    /// Position as two `f32`, the rest as small integers.
    V2 { x: u32, y: u32, speed: u16, width: u16, direction: u8, pressure: u8 },
}

impl View for Point {
    type V = Point;

    open spec fn view(&self) -> Point {
        *self
    }
}

/// A point in the encoding of block version `version`: 1 is the wide form,
/// any other the compact one.
pub open spec fn spec_point(d: Seq<u8>, p: int, version: u8) -> Decoded<Point> {
    and_next(spec_u32(d, p), |x: u32, p1: int|
    and_next(spec_u32(d, p1), |y: u32, p2: int|
    if version == 1 {
        and_next(spec_u32(d, p2), |speed: u32, p3: int|
        and_next(spec_u32(d, p3), |direction: u32, p4: int|
        and_next(spec_u32(d, p4), |width: u32, p5: int|
        and_next(spec_u32(d, p5), |pressure: u32, p6: int|
            Decoded::Done(Point::V1 { x, y, speed, direction, width, pressure }, p6)))))
    } else {
        and_next(spec_u16(d, p2), |speed: u16, p3: int|
        and_next(spec_u16(d, p3), |width: u16, p4: int|
        and_next(spec_u8(d, p4), |direction: u8, p5: int|
        and_next(spec_u8(d, p5), |pressure: u8, p6: int|
            Decoded::Done(Point::V2 { x, y, speed, width, direction, pressure }, p6)))))
    }))
}

pub open spec fn point_item(d: Seq<u8>, version: u8) -> spec_fn(int) -> Decoded<Point> {
    |p: int| spec_point(d, p, version)
}

impl Point {
    pub fn parse(info: &BlockInfo, reader: &mut TaggedBitreader) -> (r: Result<Point, ParseError>)
        ensures
            final(reader).bytes() == old(reader).bytes(),
            agrees(r, spec_point(old(reader).bytes(), old(reader).at(), info.current_version), final(reader).at()),
    {
        let x = reader.bit_reader.read_f32_bits()?;
        let y = reader.bit_reader.read_f32_bits()?;
        if info.current_version == 1 {
            let speed = reader.bit_reader.read_f32_bits()?;
            let direction = reader.bit_reader.read_f32_bits()?;
            let width = reader.bit_reader.read_f32_bits()?;
            let pressure = reader.bit_reader.read_f32_bits()?;
            Ok(Point::V1 { x, y, speed, direction, width, pressure })
        } else {
            let speed = reader.bit_reader.read_u16()?;
            let width = reader.bit_reader.read_u16()?;
            let direction = reader.bit_reader.read_u8()?;
            let pressure = reader.bit_reader.read_u8()?;
            Ok(Point::V2 { x, y, speed, width, direction, pressure })
        }
    }
}

/// How many bytes a point takes in a block of version `version`.
pub open spec fn point_size(version: u8) -> Option<u32> {
    if version == 1 {
        Some(0x18)
    } else if version == 2 {
        Some(0x0E)
    } else {
        None
    }
}

pub fn point_serialize_size(version: u8) -> (r: Result<u32, ParseError>)
    ensures
        match point_size(version) {
            Some(n) => r == Ok::<u32, ParseError>(n),
            None => r matches Err(e) && e.kind == ParseErrorKind::Unsupported,
        },
{
    match version {
        1 => Ok(0x18),
        2 => Ok(0x0E),
        _ => Err(ParseError::unsupported("Block has an unsupported version")),
    }
}

/// A stroke. `thickness_scale` holds the bit pattern of an `f64`,
/// `starting_length` that of an `f32`.
#[derive(Debug)]
pub struct Line {
    pub tool: Tool,
    pub color: PenColor,
    pub thickness_scale: u64,
    pub starting_length: u32,
    pub points: Vec<Point>,
    pub timestamp: CrdtId,
}

pub struct LineView {
    pub tool: Tool,
    pub color: PenColor,
    pub thickness_scale: u64,
    pub starting_length: u32,
    pub points: Seq<Point>,
    pub timestamp: CrdtId,
}

impl View for Line {
    type V = LineView;

    open spec fn view(&self) -> LineView {
        LineView {
            tool: self.tool,
            color: self.color,
            thickness_scale: self.thickness_scale,
            starting_length: self.starting_length,
            points: self.points@,
            timestamp: self.timestamp,
        }
    }
}

/// The points of a line: the subblock's size must be a whole number of points.
pub open spec fn spec_points(d: Seq<u8>, b: SubBlock, version: u8) -> Decoded<Seq<Point>> {
    match point_size(version) {
        None => Decoded::Fail(ParseErrorKind::Unsupported),
        Some(n) => if b.size % n != 0 {
            Decoded::Fail(ParseErrorKind::InvalidInput)
        } else {
            and_next(repeat(point_item(d, version), (b.size / n) as nat, b.position as int, Seq::empty()),
                |pts: Seq<Point>, p1: int| spec_close(b, pts, p1))
        },
    }
}

/// A line: tool as field 1, color as 2, thickness scale as 3, starting length
/// as 4, the points in a subblock at 5, and a timestamp id as 6.
pub open spec fn spec_line(info: BlockInfo, d: Seq<u8>, p: int) -> Decoded<LineView> {
    and_next(spec_tagged_u32(d, p, 1), |t: u32, p1: int|
    match tool_of(t as int) {
        None => Decoded::Fail(ParseErrorKind::InvalidInput),
        Some(tool) => and_next(spec_tagged_u32(d, p1, 2), |c: u32, p2: int|
        match pen_color_of(c as int) {
            None => Decoded::Fail(ParseErrorKind::InvalidInput),
            Some(color) =>
                and_next(spec_tagged_u64(d, p2, 3), |thickness_scale: u64, p3: int|
                and_next(spec_tagged_u32(d, p3, 4), |starting_length: u32, p4: int|
                and_next(spec_subblock(d, p4, 5), |b: SubBlock, p5: int|
                and_next(spec_points(d, b, info.current_version), |points: Seq<Point>, p6: int|
                and_next(spec_id(d, p6, 6), |timestamp: CrdtId, p7: int|
                    Decoded::Done(LineView { tool, color, thickness_scale, starting_length, points, timestamp }, p7)))))),
        }),
    })
}

/// `count` points one after another.
fn read_points(info: &BlockInfo, reader: &mut TaggedBitreader, count: u32) -> (r: Result<Vec<Point>, ParseError>)
    ensures
        final(reader).bytes() == old(reader).bytes(),
        agrees(r, repeat(point_item(old(reader).bytes(), info.current_version), count as nat, old(reader).at(), Seq::empty()), final(reader).at()),
{
    let ghost d = reader.bytes();
    let ghost item = point_item(d, info.current_version);
    let mut points: Vec<Point> = Vec::new();
    let mut i: u32 = 0;
    while i < count
        invariant
            reader.bytes() == d,
            d == old(reader).bytes(),
            item == point_item(d, info.current_version),
            i <= count,
            repeat(item, count as nat, old(reader).at(), Seq::empty())
                == repeat(item, (count - i) as nat, reader.at(), points@),
        decreases count - i,
    {
        assert(item(reader.at()) == spec_point(d, reader.at(), info.current_version));
        let pt = Point::parse(info, reader)?;
        points.push(pt);
        i = i + 1;
    }
    Ok(points)
}

impl Line {
    pub fn parse(info: &BlockInfo, reader: &mut TaggedBitreader) -> (r: Result<Line, ParseError>)
        ensures
            final(reader).bytes() == old(reader).bytes(),
            agrees(r, spec_line(*info, old(reader).bytes(), old(reader).at()), final(reader).at()),
    {
        let ghost d = reader.bytes();
        let tool = Tool::from_code(reader.read_u32(1)?)?;
        let color = PenColor::from_code(reader.read_u32(2)?)?;
        let thickness_scale = reader.read_f64_bits(3)?;
        let starting_length = reader.read_f32_bits(4)?;
        let subblock = reader.read_subblock(5)?;
        let point_size = point_serialize_size(info.current_version)?;
        if subblock.size % point_size != 0 {
            return Err(ParseError::invalid("Invalid point data size"));
        }
        let points = read_points(info, reader, subblock.size / point_size)?;
        subblock.validate_size(reader)?;
        let timestamp = reader.read_id(6)?;
        Ok(Line { tool, color, thickness_scale, starting_length, points, timestamp })
    }
}

/// A rectangle of a glyph range; each field holds the bit pattern of an `f64`.
#[derive(Debug, Clone, Copy, PartialEq, Eq, Structural)]
pub struct Rectangle {
    pub x: u64,
    pub y: u64,
    pub w: u64,
    pub h: u64,
}

impl View for Rectangle {
    type V = Rectangle;

    open spec fn view(&self) -> Rectangle {
        *self
    }
}

pub open spec fn spec_rectangle(d: Seq<u8>, p: int) -> Decoded<Rectangle> {
    and_next(spec_u64(d, p), |x: u64, p1: int|
    and_next(spec_u64(d, p1), |y: u64, p2: int|
    and_next(spec_u64(d, p2), |w: u64, p3: int|
    and_next(spec_u64(d, p3), |h: u64, p4: int| Decoded::Done(Rectangle { x, y, w, h }, p4)))))
}

pub open spec fn rectangle_item(d: Seq<u8>) -> spec_fn(int) -> Decoded<Rectangle> {
    |p: int| spec_rectangle(d, p)
}

impl Rectangle {
    pub fn parse(reader: &mut TaggedBitreader) -> (r: Result<Rectangle, ParseError>)
        ensures
            final(reader).bytes() == old(reader).bytes(),
            agrees(r, spec_rectangle(old(reader).bytes(), old(reader).at()), final(reader).at()),
    {
        let x = reader.bit_reader.read_f64_bits()?;
        let y = reader.bit_reader.read_f64_bits()?;
        let w = reader.bit_reader.read_f64_bits()?;
        let h = reader.bit_reader.read_f64_bits()?;
        Ok(Rectangle { x, y, w, h })
    }
}

/// `count` rectangles one after another.
fn read_rectangles(reader: &mut TaggedBitreader, count: u32) -> (r: Result<Vec<Rectangle>, ParseError>)
    ensures
        final(reader).bytes() == old(reader).bytes(),
        agrees(r, repeat(rectangle_item(old(reader).bytes()), count as nat, old(reader).at(), Seq::empty()), final(reader).at()),
{
    let ghost d = reader.bytes();
    let ghost item = rectangle_item(d);
    let mut out: Vec<Rectangle> = Vec::new();
    let mut i: u32 = 0;
    while i < count
        invariant
            reader.bytes() == d,
            d == old(reader).bytes(),
            item == rectangle_item(d),
            i <= count,
            repeat(item, count as nat, old(reader).at(), Seq::empty())
                == repeat(item, (count - i) as nat, reader.at(), out@),
        decreases count - i,
    {
        assert(item(reader.at()) == spec_rectangle(d, reader.at()));
        let rect = Rectangle::parse(reader)?;
        out.push(rect);
        i = i + 1;
    }
    Ok(out)
}

/// A run of handwriting recognised as text, with the rectangles it covers.
#[derive(Debug)]
pub struct GlyphRange {
    pub start: u32,
    pub length: u32,
    pub text: String,
    pub color: PenColor,
    pub rectangles: Vec<Rectangle>,
}

pub struct GlyphRangeView {
    pub start: u32,
    pub length: u32,
    pub text: Seq<char>,
    pub color: PenColor,
    pub rectangles: Seq<Rectangle>,
}

impl View for GlyphRange {
    type V = GlyphRangeView;

    open spec fn view(&self) -> GlyphRangeView {
        GlyphRangeView {
            start: self.start,
            length: self.length,
            text: self.text@,
            color: self.color,
            rectangles: self.rectangles@,
        }
    }
}

/// A glyph range: start as field 2, length as 3, color as 4, text as 5, and
/// a subblock at 6 with a varuint count of rectangles.
pub open spec fn spec_glyph_range(d: Seq<u8>, p: int) -> Decoded<GlyphRangeView> {
    and_next(spec_tagged_u32(d, p, 2), |start: u32, p1: int|
    and_next(spec_tagged_u32(d, p1, 3), |length: u32, p2: int|
    and_next(spec_tagged_u32(d, p2, 4), |c: u32, p3: int|
    match pen_color_of(c as int) {
        None => Decoded::Fail(ParseErrorKind::InvalidInput),
        Some(color) =>
            and_next(spec_tagged_string(d, p3, 5), |text: Seq<char>, p4: int|
            and_next(spec_subblock(d, p4, 6), |b: SubBlock, p5: int|
            and_next(spec_varuint(d, p5), |n: u32, p6: int|
            and_next(repeat(rectangle_item(d), n as nat, p6, Seq::empty()), |rectangles: Seq<Rectangle>, p7: int|
            and_next(spec_close(b, (), p7), |_u: (), p8: int|
                Decoded::Done(GlyphRangeView { start, length, text, color, rectangles }, p8)))))),
    })))
}

impl GlyphRange {
    pub fn parse(reader: &mut TaggedBitreader) -> (r: Result<GlyphRange, ParseError>)
        ensures
            final(reader).bytes() == old(reader).bytes(),
            agrees(r, spec_glyph_range(old(reader).bytes(), old(reader).at()), final(reader).at()),
    {
        let start = reader.read_u32(2)?;
        let length = reader.read_u32(3)?;
        let color = PenColor::from_code(reader.read_u32(4)?)?;
        let text = reader.read_string(5)?;
        let subblock = reader.read_subblock(6)?;
        let count = reader.bit_reader.read_varuint()?;
        let rectangles = read_rectangles(reader, count)?;
        subblock.validate_size(reader)?;
        Ok(GlyphRange { start, length, text, color, rectangles })
    }
}

/// The style of a paragraph of text.
#[derive(Debug, Clone, Copy, PartialEq, Eq, Structural)]
pub enum ParagraphStyle {
    Basic,
    Plain,
    Heading,
    Bold,
    Bullet,
    Bullet2,
}

impl View for ParagraphStyle {
    type V = ParagraphStyle;

    open spec fn view(&self) -> ParagraphStyle {
        *self
    }
}

pub open spec fn paragraph_style_of(v: int) -> Option<ParagraphStyle> {
    if v == 0 { Some(ParagraphStyle::Basic) }
    else if v == 1 { Some(ParagraphStyle::Plain) }
    else if v == 2 { Some(ParagraphStyle::Heading) }
    else if v == 3 { Some(ParagraphStyle::Bold) }
    else if v == 4 { Some(ParagraphStyle::Bullet) }
    else if v == 5 { Some(ParagraphStyle::Bullet2) }
    else { None }
}

impl ParagraphStyle {
    pub fn from_code(value: u8) -> (r: Result<ParagraphStyle, ParseError>)
        ensures
            match paragraph_style_of(value as int) {
                Some(s) => r == Ok::<ParagraphStyle, ParseError>(s),
                None => r matches Err(e) && e.kind == ParseErrorKind::InvalidInput,
            },
    {
        match value {
            0 => Ok(ParagraphStyle::Basic),
            1 => Ok(ParagraphStyle::Plain),
            2 => Ok(ParagraphStyle::Heading),
            3 => Ok(ParagraphStyle::Bold),
            4 => Ok(ParagraphStyle::Bullet),
            5 => Ok(ParagraphStyle::Bullet2),
            _ => Err(ParseError::invalid("Invalid paragraph style")),
        }
    }
}

/// One element of a text: a run of characters or a formatting code.
#[derive(Debug)]
pub enum TextItem {
    FormatCode(u32),
    Text(String),
}

pub enum TextItemView {
    FormatCode(u32),
    Text(Seq<char>),
}

impl View for TextItem {
    type V = TextItemView;

    open spec fn view(&self) -> TextItemView {
        match self {
            TextItem::FormatCode(c) => TextItemView::FormatCode(*c),
            TextItem::Text(s) => TextItemView::Text(s@),
        }
    }
}

/// The value of a text item: inside a subblock at 6, a string body, then
/// either a format code as field 2 or nothing (the string is the value).
pub open spec fn spec_text_value(d: Seq<u8>, p: int) -> Decoded<TextItemView> {
    and_next(spec_subblock(d, p, 6), |b: SubBlock, p1: int|
    and_next(spec_string_body(d, p1), |s: Seq<char>, p2: int|
    if spec_tag(d, p2, 2, TagType::Byte4).is_done() {
        and_next(spec_tagged_u32(d, p2, 2), |code: u32, p3: int| spec_close(b, TextItemView::FormatCode(code), p3))
    } else {
        spec_close(b, TextItemView::Text(s), p2)
    }))
}

/// A text item: in a subblock at 0, its id as field 2, its neighbours as 3
/// and 4, the deleted length as 5, then its value if a subblock at 6 follows
/// (an empty string otherwise).
pub open spec fn spec_text_item(d: Seq<u8>, p: int) -> Decoded<CrdtSequenceItem<TextItemView>> {
    and_next(spec_subblock(d, p, 0), |b: SubBlock, p1: int|
    and_next(spec_id(d, p1, 2), |item_id: CrdtId, p2: int|
    and_next(spec_id(d, p2, 3), |left_id: CrdtId, p3: int|
    and_next(spec_id(d, p3, 4), |right_id: CrdtId, p4: int|
    and_next(spec_tagged_u32(d, p4, 5), |deleted_length: u32, p5: int|
    and_next(
        if spec_tag(d, p5, 6, TagType::Length4).is_done() {
            spec_text_value(d, p5)
        } else {
            Decoded::Done(TextItemView::Text(Seq::empty()), p5)
        },
        |value: TextItemView, p6: int|
            spec_close(b, CrdtSequenceItem { item_id, left_id, right_id, deleted_length, value }, p6)))))))
}

pub open spec fn text_item_at(d: Seq<u8>) -> spec_fn(int) -> Decoded<CrdtSequenceItem<TextItemView>> {
    |p: int| spec_text_item(d, p)
}

pub open spec fn add_text_item() -> spec_fn(Seq<CrdtSequenceItem<TextItemView>>, CrdtSequenceItem<TextItemView>) -> Seq<CrdtSequenceItem<TextItemView>> {
    |s: Seq<CrdtSequenceItem<TextItemView>>, it: CrdtSequenceItem<TextItemView>| with_item(s, it)
}

/// The first place from `i` on whose entry has the key `k`, or -1.
pub open spec fn find_style(s: Seq<(CrdtId, LwwValue<ParagraphStyle>)>, k: CrdtId, i: int) -> int
    decreases s.len() - i,
{
    if i < 0 || i >= s.len() {
        -1
    } else if s[i].0 == k {
        i
    } else {
        find_style(s, k, i + 1)
    }
}

/// A style map keyed by id: a new entry replaces one with the same key.
pub open spec fn with_style(s: Seq<(CrdtId, LwwValue<ParagraphStyle>)>, e: (CrdtId, LwwValue<ParagraphStyle>)) -> Seq<(CrdtId, LwwValue<ParagraphStyle>)> {
    let i = find_style(s, e.0, 0);
    if i >= 0 {
        s.update(i, e)
    } else {
        s.push(e)
    }
}

/// A style entry: an untagged id, its timestamp as id 1, and in a subblock at
/// 2 one byte of unknown meaning and the style code.
pub open spec fn spec_style(d: Seq<u8>, p: int) -> Decoded<(CrdtId, LwwValue<ParagraphStyle>)> {
    and_next(spec_crdt_id(d, p), |id: CrdtId, p1: int|
    and_next(spec_id(d, p1, 1), |timestamp: CrdtId, p2: int|
    and_next(spec_subblock(d, p2, 2), |b: SubBlock, p3: int|
    and_next(spec_u8(d, p3), |_c: u8, p4: int|
    and_next(spec_u8(d, p4), |code: u8, p5: int|
    match paragraph_style_of(code as int) {
        None => Decoded::Fail(ParseErrorKind::InvalidInput),
        Some(value) => spec_close(b, (id, LwwValue { timestamp, value }), p5),
    })))))
}

pub open spec fn style_at(d: Seq<u8>) -> spec_fn(int) -> Decoded<(CrdtId, LwwValue<ParagraphStyle>)> {
    |p: int| spec_style(d, p)
}

pub open spec fn add_style() -> spec_fn(Seq<(CrdtId, LwwValue<ParagraphStyle>)>, (CrdtId, LwwValue<ParagraphStyle>)) -> Seq<(CrdtId, LwwValue<ParagraphStyle>)> {
    |s: Seq<(CrdtId, LwwValue<ParagraphStyle>)>, e: (CrdtId, LwwValue<ParagraphStyle>)| with_style(s, e)
}

/// The items of a text: in two nested subblocks at 1, a varuint count and
/// that many items, keyed by item id.
pub open spec fn spec_text_items(d: Seq<u8>, p: int) -> Decoded<Seq<CrdtSequenceItem<TextItemView>>> {
    and_next(spec_subblock(d, p, 1), |outer: SubBlock, p1: int|
    and_next(spec_subblock(d, p1, 1), |inner: SubBlock, p2: int|
    and_next(spec_varuint(d, p2), |n: u32, p3: int|
    and_next(fold_repeat(text_item_at(d), add_text_item(), n as nat, p3, Seq::empty()),
        |items: Seq<CrdtSequenceItem<TextItemView>>, p4: int|
    and_next(spec_close(inner, (), p4), |_u: (), p5: int| spec_close(outer, items, p5))))))
}

/// The paragraph styles of a text: in subblocks at 2 and then 1, a varuint
/// count and that many entries, keyed by id.
pub open spec fn spec_styles(d: Seq<u8>, p: int) -> Decoded<Seq<(CrdtId, LwwValue<ParagraphStyle>)>> {
    and_next(spec_subblock(d, p, 2), |outer: SubBlock, p1: int|
    and_next(spec_subblock(d, p1, 1), |inner: SubBlock, p2: int|
    and_next(spec_varuint(d, p2), |n: u32, p3: int|
    and_next(fold_repeat(style_at(d), add_style(), n as nat, p3, Seq::empty()),
        |styles: Seq<(CrdtId, LwwValue<ParagraphStyle>)>, p4: int|
    and_next(spec_close(inner, (), p4), |_u: (), p5: int| spec_close(outer, styles, p5))))))
}

/// A block of text. `x` and `y` hold the bit patterns of `f64`, `width` that of an `f32`.
#[derive(Debug)]
pub struct Text {
    pub items: CrdtSequence<TextItem>,
    pub styles: Vec<(CrdtId, LwwValue<ParagraphStyle>)>,
    pub x: u64,
    pub y: u64,
    pub width: u32,
}

pub struct TextView {
    pub items: Seq<CrdtSequenceItem<TextItemView>>,
    pub styles: Seq<(CrdtId, LwwValue<ParagraphStyle>)>,
    pub x: u64,
    pub y: u64,
    pub width: u32,
}

impl View for Text {
    type V = TextView;

    open spec fn view(&self) -> TextView {
        TextView { items: self.items@, styles: self.styles@, x: self.x, y: self.y, width: self.width }
    }
}

/// A text: in a subblock at 2 its items and its styles; then a subblock at 3
/// with the position as two `f64`, and the width as field 4.
pub open spec fn spec_text(d: Seq<u8>, p: int) -> Decoded<TextView> {
    and_next(spec_subblock(d, p, 2), |b: SubBlock, p1: int|
    and_next(spec_text_items(d, p1), |items: Seq<CrdtSequenceItem<TextItemView>>, p2: int|
    and_next(spec_styles(d, p2), |styles: Seq<(CrdtId, LwwValue<ParagraphStyle>)>, p3: int|
    and_next(spec_close(b, (), p3), |_u: (), p4: int|
    and_next(spec_subblock(d, p4, 3), |pb: SubBlock, p5: int|
    and_next(spec_u64(d, p5), |x: u64, p6: int|
    and_next(spec_u64(d, p6), |y: u64, p7: int|
    and_next(spec_close(pb, (), p7), |_v: (), p8: int|
    and_next(spec_tagged_u32(d, p8, 4), |width: u32, p9: int|
        Decoded::Done(TextView { items, styles, x, y, width }, p9))))))))))
}

fn read_text_value(reader: &mut TaggedBitreader) -> (r: Result<TextItem, ParseError>)
    ensures
        final(reader).bytes() == old(reader).bytes(),
        agrees(r, spec_text_value(old(reader).bytes(), old(reader).at()), final(reader).at()),
{
    let subblock = reader.read_subblock(6)?;
    let string = reader.read_string_body()?;
    let value = if reader.has_tag(2, TagType::Byte4)? {
        TextItem::FormatCode(reader.read_u32(2)?)
    } else {
        TextItem::Text(string)
    };
    subblock.validate_size(reader)?;
    Ok(value)
}

fn read_text_item(reader: &mut TaggedBitreader) -> (r: Result<CrdtSequenceItem<TextItem>, ParseError>)
    ensures
        final(reader).bytes() == old(reader).bytes(),
        agrees(r, spec_text_item(old(reader).bytes(), old(reader).at()), final(reader).at()),
{
    let subblock = reader.read_subblock(0)?;
    let item_id = reader.read_id(2)?;
    let left_id = reader.read_id(3)?;
    let right_id = reader.read_id(4)?;
    let deleted_length = reader.read_u32(5)?;
    let value = if reader.has_subblock(6)? {
        read_text_value(reader)?
    } else {
        let v = TextItem::Text(String::new());
        assert(v@ == TextItemView::Text(Seq::empty()));
        v
    };
    subblock.validate_size(reader)?;
    Ok(CrdtSequenceItem { item_id, left_id, right_id, deleted_length, value })
}

/// `count` text items, keyed by item id.
fn read_text_items(reader: &mut TaggedBitreader, count: u32) -> (r: Result<CrdtSequence<TextItem>, ParseError>)
    ensures
        final(reader).bytes() == old(reader).bytes(),
        agrees(r, fold_repeat(text_item_at(old(reader).bytes()), add_text_item(), count as nat, old(reader).at(), Seq::empty()), final(reader).at()),
{
    let ghost d = reader.bytes();
    let ghost item = text_item_at(d);
    let mut out: CrdtSequence<TextItem> = CrdtSequence::new();
    let mut i: u32 = 0;
    while i < count
        invariant
            reader.bytes() == d,
            d == old(reader).bytes(),
            item == text_item_at(d),
            i <= count,
            fold_repeat(item, add_text_item(), count as nat, old(reader).at(), Seq::empty())
                == fold_repeat(item, add_text_item(), (count - i) as nat, reader.at(), out@),
        decreases count - i,
    {
        assert(item(reader.at()) == spec_text_item(d, reader.at()));
        let it = read_text_item(reader)?;
        let ghost before = out@;
        let ghost it_view = it@;
        out.push(it);
        assert(out@ == add_text_item()(before, it_view));
        i = i + 1;
    }
    Ok(out)
}

/// Adds a style entry; one with the same id is replaced.
fn insert_style(styles: &mut Vec<(CrdtId, LwwValue<ParagraphStyle>)>, entry: (CrdtId, LwwValue<ParagraphStyle>))
    ensures
        final(styles)@ == with_style(old(styles)@, entry),
{
    let ghost s = styles@;
    let mut i: usize = 0;
    while i < styles.len()
        invariant
            s == styles@,
            s == old(styles)@,
            0 <= i <= styles@.len(),
            find_style(s, entry.0, 0) == find_style(s, entry.0, i as int),
        decreases styles@.len() - i,
    {
        if styles[i].0 == entry.0 {
            styles.remove(i);
            styles.insert(i, entry);
            assert(styles@ =~= s.update(i as int, entry));
            return;
        }
        i = i + 1;
    }
    styles.push(entry);
}

fn read_style(reader: &mut TaggedBitreader) -> (r: Result<(CrdtId, LwwValue<ParagraphStyle>), ParseError>)
    ensures
        final(reader).bytes() == old(reader).bytes(),
        agrees(r, spec_style(old(reader).bytes(), old(reader).at()), final(reader).at()),
{
    let part1 = reader.bit_reader.read_u8()?;
    let part2 = reader.bit_reader.read_varuint()?;
    let id = CrdtId { part1, part2 };
    let timestamp = reader.read_id(1)?;
    let subblock = reader.read_subblock(2)?;
    let _c = reader.bit_reader.read_u8()?;
    let value = ParagraphStyle::from_code(reader.bit_reader.read_u8()?)?;
    subblock.validate_size(reader)?;
    Ok((id, LwwValue { timestamp, value }))
}

/// `count` style entries, keyed by id.
fn read_styles(reader: &mut TaggedBitreader, count: u32) -> (r: Result<Vec<(CrdtId, LwwValue<ParagraphStyle>)>, ParseError>)
    ensures
        final(reader).bytes() == old(reader).bytes(),
        agrees(r, fold_repeat(style_at(old(reader).bytes()), add_style(), count as nat, old(reader).at(), Seq::empty()), final(reader).at()),
{
    let ghost d = reader.bytes();
    let ghost item = style_at(d);
    let mut out: Vec<(CrdtId, LwwValue<ParagraphStyle>)> = Vec::new();
    let mut i: u32 = 0;
    while i < count
        invariant
            reader.bytes() == d,
            d == old(reader).bytes(),
            item == style_at(d),
            i <= count,
            fold_repeat(item, add_style(), count as nat, old(reader).at(), Seq::empty())
                == fold_repeat(item, add_style(), (count - i) as nat, reader.at(), out@),
        decreases count - i,
    {
        assert(item(reader.at()) == spec_style(d, reader.at()));
        let e = read_style(reader)?;
        let ghost before = out@;
        let ghost ev = e;
        insert_style(&mut out, e);
        assert(out@ == add_style()(before, ev));
        i = i + 1;
    }
    Ok(out)
}

impl Text {
    pub fn parse(reader: &mut TaggedBitreader) -> (r: Result<Text, ParseError>)
        ensures
            final(reader).bytes() == old(reader).bytes(),
            agrees(r, spec_text(old(reader).bytes(), old(reader).at()), final(reader).at()),
    {
        let subblock = reader.read_subblock(2)?;

        let items_outer = reader.read_subblock(1)?;
        let items_inner = reader.read_subblock(1)?;
        let amount_items = reader.bit_reader.read_varuint()?;
        let items = read_text_items(reader, amount_items)?;
        items_inner.validate_size(reader)?;
        items_outer.validate_size(reader)?;

        let styles_outer = reader.read_subblock(2)?;
        let styles_inner = reader.read_subblock(1)?;
        let amount_styles = reader.bit_reader.read_varuint()?;
        let styles = read_styles(reader, amount_styles)?;
        styles_inner.validate_size(reader)?;
        styles_outer.validate_size(reader)?;

        subblock.validate_size(reader)?;

        let position = reader.read_subblock(3)?;
        let x = reader.bit_reader.read_f64_bits()?;
        let y = reader.bit_reader.read_f64_bits()?;
        position.validate_size(reader)?;

        let width = reader.read_f32_bits(4)?;
        Ok(Text { items, styles, x, y, width })
    }
}

/// An element of a group: a child group (by its node id), a stroke, a text
/// or a glyph range.
#[derive(Debug)]
pub enum SceneItem {
    Group(CrdtId),
    Line(Line),
    Text(Text),
    GlyphRange(GlyphRange),
}

pub enum SceneItemView {
    Group(CrdtId),
    Line(LineView),
    Text(TextView),
    GlyphRange(GlyphRangeView),
}

impl View for SceneItem {
    type V = SceneItemView;

    open spec fn view(&self) -> SceneItemView {
        match self {
            SceneItem::Group(id) => SceneItemView::Group(*id),
            SceneItem::Line(l) => SceneItemView::Line(l@),
            SceneItem::Text(t) => SceneItemView::Text(t@),
            SceneItem::GlyphRange(g) => SceneItemView::GlyphRange(g@),
        }
    }
}

/// A group of nested items; groups stand for layers.
///
/// `anchor_id` names a text character that gives the group its vertical
/// position; two values are reserved, one for the top and one for the
/// bottom of the page. `anchor_threshold` and `anchor_origin_x` hold the bit
/// patterns of `f32`.
#[derive(Debug)]
pub struct Group {
    pub node_id: CrdtId,
    pub children: CrdtSequence<SceneItem>,
    pub label: LwwValue<String>,
    pub visible: LwwValue<bool>,
    pub anchor_id: Option<LwwValue<CrdtId>>,
    pub anchor_type: Option<LwwValue<u8>>,
    pub anchor_threshold: Option<LwwValue<u32>>,
    pub anchor_origin_x: Option<LwwValue<u32>>,
}

pub struct GroupView {
    pub node_id: CrdtId,
    pub children: Seq<CrdtSequenceItem<SceneItemView>>,
    pub label: LwwValue<Seq<char>>,
    pub visible: LwwValue<bool>,
    pub anchor_id: Option<LwwValue<CrdtId>>,
    pub anchor_type: Option<LwwValue<u8>>,
    pub anchor_threshold: Option<LwwValue<u32>>,
    pub anchor_origin_x: Option<LwwValue<u32>>,
}

pub open spec fn opt_view<T: View>(o: Option<T>) -> Option<T::V> {
    match o {
        Some(v) => Some(v@),
        None => None,
    }
}

impl View for Group {
    type V = GroupView;

    open spec fn view(&self) -> GroupView {
        GroupView {
            node_id: self.node_id,
            children: self.children@,
            label: self.label@,
            visible: self.visible@,
            anchor_id: opt_view(self.anchor_id),
            anchor_type: opt_view(self.anchor_type),
            anchor_threshold: opt_view(self.anchor_threshold),
            anchor_origin_x: opt_view(self.anchor_origin_x),
        }
    }
}

/// A group with the given id and nothing else: no children, an empty label
/// and visible, both written at time (0, 0), and no anchor.
pub open spec fn empty_group(id: CrdtId) -> GroupView {
    GroupView {
        node_id: id,
        children: Seq::empty(),
        label: LwwValue { timestamp: CrdtId { part1: 0, part2: 0 }, value: Seq::empty() },
        visible: LwwValue { timestamp: CrdtId { part1: 0, part2: 0 }, value: true },
        anchor_id: None,
        anchor_type: None,
        anchor_threshold: None,
        anchor_origin_x: None,
    }
}

impl Group {
    pub fn default() -> (r: Group)
        ensures
            r@ == empty_group(CrdtId { part1: 0, part2: 0 }),
    {
        let r = Group {
            node_id: CrdtId::default(),
            children: CrdtSequence::new(),
            label: LwwValue { timestamp: CrdtId::default(), value: String::new() },
            visible: LwwValue { timestamp: CrdtId::default(), value: true },
            anchor_id: None,
            anchor_type: None,
            anchor_threshold: None,
            anchor_origin_x: None,
        };
        assert(r@.label.value =~= Seq::<char>::empty());
        r
    }

    /// The same group with another node id.
    pub fn node_id(self, node_id: CrdtId) -> (r: Group)
        ensures
            r@ == (GroupView { node_id, ..self@ }),
    {
        Group { node_id, ..self }
    }

    /// The same group with another label.
    pub fn label(self, label: LwwValue<String>) -> (r: Group)
        ensures
            r@ == (GroupView { label: label@, ..self@ }),
    {
        Group { label, ..self }
    }
}

fn copy_vec<T: Copy>(v: &Vec<T>) -> (r: Vec<T>)
    ensures
        r@ == v@,
{
    let mut out: Vec<T> = Vec::new();
    let mut i: usize = 0;
    while i < v.len()
        invariant
            i <= v@.len(),
            out@ == v@.subrange(0, i as int),
        decreases v@.len() - i,
    {
        out.push(v[i]);
        i = i + 1;
        assert(out@ =~= v@.subrange(0, i as int));
    }
    assert(out@ =~= v@);
    out
}

fn copy_styles(v: &Vec<(CrdtId, LwwValue<ParagraphStyle>)>) -> (r: Vec<(CrdtId, LwwValue<ParagraphStyle>)>)
    ensures
        r@ == v@,
{
    let mut out: Vec<(CrdtId, LwwValue<ParagraphStyle>)> = Vec::new();
    let mut i: usize = 0;
    while i < v.len()
        invariant
            i <= v@.len(),
            out@ == v@.subrange(0, i as int),
        decreases v@.len() - i,
    {
        let e = &v[i];
        out.push((e.0, LwwValue { timestamp: e.1.timestamp, value: e.1.value }));
        i = i + 1;
        assert(out@ =~= v@.subrange(0, i as int));
    }
    assert(out@ =~= v@);
    out
}

impl<T: View> CrdtSequenceItem<T> {
    /// The same ids and deleted length with another value.
    pub fn with_value<U>(&self, value: U) -> (r: CrdtSequenceItem<U>)
        ensures
            r.item_id == self.item_id,
            r.left_id == self.left_id,
            r.right_id == self.right_id,
            r.deleted_length == self.deleted_length,
            r.value == value,
    {
        CrdtSequenceItem {
            item_id: self.item_id,
            left_id: self.left_id,
            right_id: self.right_id,
            deleted_length: self.deleted_length,
            value,
        }
    }
}

impl TextItem {
    pub fn duplicate(&self) -> (r: TextItem)
        ensures
            r@ == self@,
    {
        match self {
            TextItem::FormatCode(c) => TextItem::FormatCode(*c),
            TextItem::Text(s) => TextItem::Text(s.clone()),
        }
    }
}

impl Line {
    pub fn duplicate(&self) -> (r: Line)
        ensures
            r@ == self@,
    {
        Line {
            tool: self.tool,
            color: self.color,
            thickness_scale: self.thickness_scale,
            starting_length: self.starting_length,
            points: copy_vec(&self.points),
            timestamp: self.timestamp,
        }
    }
}

impl GlyphRange {
    pub fn duplicate(&self) -> (r: GlyphRange)
        ensures
            r@ == self@,
    {
        GlyphRange {
            start: self.start,
            length: self.length,
            text: self.text.clone(),
            color: self.color,
            rectangles: copy_vec(&self.rectangles),
        }
    }
}

impl Text {
    pub fn duplicate(&self) -> (r: Text)
        ensures
            r@ == self@,
    {
        let mut items: Vec<CrdtSequenceItem<TextItem>> = Vec::new();
        let mut i: usize = 0;
        while i < self.items.items.len()
            invariant
                i <= self.items.items@.len(),
                items@.map_values(|it: CrdtSequenceItem<TextItem>| it@)
                    == self.items@.subrange(0, i as int),
            decreases self.items.items@.len() - i,
        {
            let it = &self.items.items[i];
            let copy = it.with_value(it.value.duplicate());
            assert(copy@ == self.items@[i as int]);
            let ghost before = items@;
            items.push(copy);
            assert(items@.map_values(|it: CrdtSequenceItem<TextItem>| it@) =~= before.map_values(|it: CrdtSequenceItem<TextItem>| it@).push(copy@));
            i = i + 1;
            assert(items@.map_values(|it: CrdtSequenceItem<TextItem>| it@) =~= self.items@.subrange(0, i as int));
        }
        let r = Text {
            items: CrdtSequence { items },
            styles: copy_styles(&self.styles),
            x: self.x,
            y: self.y,
            width: self.width,
        };
        assert(r.items@ =~= self.items@);
        r
    }
}

impl SceneItem {
    pub fn duplicate(&self) -> (r: SceneItem)
        ensures
            r@ == self@,
    {
        match self {
            SceneItem::Group(id) => SceneItem::Group(*id),
            SceneItem::Line(l) => SceneItem::Line(l.duplicate()),
            SceneItem::Text(t) => SceneItem::Text(t.duplicate()),
            SceneItem::GlyphRange(g) => SceneItem::GlyphRange(g.duplicate()),
        }
    }
}

fn copy_lww<T: Copy + View>(v: &Option<LwwValue<T>>) -> (r: Option<LwwValue<T>>)
    ensures
        opt_view(r) == opt_view(*v),
{
    match v {
        Some(l) => Some(LwwValue { timestamp: l.timestamp, value: l.value }),
        None => None,
    }
}

impl Group {
    pub fn duplicate(&self) -> (r: Group)
        ensures
            r@ == self@,
    {
        let mut items: Vec<CrdtSequenceItem<SceneItem>> = Vec::new();
        let mut i: usize = 0;
        while i < self.children.items.len()
            invariant
                i <= self.children.items@.len(),
                items@.map_values(|it: CrdtSequenceItem<SceneItem>| it@)
                    == self.children@.subrange(0, i as int),
            decreases self.children.items@.len() - i,
        {
            let it = &self.children.items[i];
            let copy = it.with_value(it.value.duplicate());
            assert(copy@ == self.children@[i as int]);
            let ghost before = items@;
            items.push(copy);
            assert(items@.map_values(|it: CrdtSequenceItem<SceneItem>| it@) =~= before.map_values(|it: CrdtSequenceItem<SceneItem>| it@).push(copy@));
            i = i + 1;
            assert(items@.map_values(|it: CrdtSequenceItem<SceneItem>| it@) =~= self.children@.subrange(0, i as int));
        }
        let r = Group {
            node_id: self.node_id,
            children: CrdtSequence { items },
            label: LwwValue { timestamp: self.label.timestamp, value: self.label.value.clone() },
            visible: LwwValue { timestamp: self.visible.timestamp, value: self.visible.value },
            anchor_id: copy_lww(&self.anchor_id),
            anchor_type: copy_lww(&self.anchor_type),
            anchor_threshold: copy_lww(&self.anchor_threshold),
            anchor_origin_x: copy_lww(&self.anchor_origin_x),
        };
        assert(r.children@ =~= self.children@);
        r
    }
}

} // verus!
