use vstd::prelude::*;

use crate::bitreader::{spec_u32, Bitreader};
use crate::parse_error::{agrees, and_next, repeat, Decoded, ParseError, ParseErrorKind};
use crate::shared::{color_of, tool_of, Color, Tool};

verus! {

/// A sample of a stroke in the older formats: six `f32` fields, each held as
/// its bit pattern.
#[derive(Debug, Clone, Copy, PartialEq, Eq, Structural)]
pub struct Point {
    pub x: u32,
    pub y: u32,
    pub speed: u32,
    pub direction: u32,
    pub width: u32,
    pub pressure: u32,
}

impl View for Point {
    type V = Point;

    open spec fn view(&self) -> Point {
        *self
    }
}

pub open spec fn spec_point(d: Seq<u8>, p: int) -> Decoded<Point> {
    and_next(spec_u32(d, p), |x: u32, p1: int|
    and_next(spec_u32(d, p1), |y: u32, p2: int|
    and_next(spec_u32(d, p2), |speed: u32, p3: int|
    and_next(spec_u32(d, p3), |direction: u32, p4: int|
    and_next(spec_u32(d, p4), |width: u32, p5: int|
    and_next(spec_u32(d, p5), |pressure: u32, p6: int|
        Decoded::Done(Point { x, y, speed, direction, width, pressure }, p6)))))))
}

pub open spec fn point_at(d: Seq<u8>) -> spec_fn(int) -> Decoded<Point> {
    |p: int| spec_point(d, p)
}

impl Point {
    pub fn parse(_version: u32, reader: &mut Bitreader) -> (r: Result<Point, ParseError>)
        ensures
            final(reader).bytes() == old(reader).bytes(),
            agrees(r, spec_point(old(reader).bytes(), old(reader).at()), final(reader).at()),
    {
        let x = reader.read_f32_bits()?;
        let y = reader.read_f32_bits()?;
        let speed = reader.read_f32_bits()?;
        let direction = reader.read_f32_bits()?;
        let width = reader.read_f32_bits()?;
        let pressure = reader.read_f32_bits()?;
        Ok(Point { x, y, speed, direction, width, pressure })
    }
}

/// A stroke in the older formats; `brush_size` holds the bit pattern of an `f32`.
#[derive(Debug)]
pub struct Line {
    pub points: Vec<Point>,
    pub tool: Tool,
    pub color: Color,
    pub brush_size: u32,
}

pub struct LineView {
    pub points: Seq<Point>,
    pub tool: Tool,
    pub color: Color,
    pub brush_size: u32,
}

impl View for Line {
    type V = LineView;

    open spec fn view(&self) -> LineView {
        LineView { points: self.points@, tool: self.tool, color: self.color, brush_size: self.brush_size }
    }
}

/// A line: tool, color, an unknown `u32`, the brush size, from version 5 on
/// another unknown `u32`, then a count of points and the points.
pub open spec fn spec_line(d: Seq<u8>, p: int, version: u32) -> Decoded<LineView> {
    and_next(spec_u32(d, p), |t: u32, p1: int|
    match tool_of(t as int) {
        None => Decoded::Fail(ParseErrorKind::InvalidInput),
        Some(tool) => and_next(spec_u32(d, p1), |c: u32, p2: int|
        match color_of(c as int) {
            None => Decoded::Fail(ParseErrorKind::InvalidInput),
            Some(color) =>
                and_next(spec_u32(d, p2), |_skip: u32, p3: int|
                and_next(spec_u32(d, p3), |brush_size: u32, p4: int|
                and_next(if version >= 5 { spec_u32(d, p4) } else { Decoded::Done(0u32, p4) }, |_skip2: u32, p5: int|
                and_next(spec_u32(d, p5), |n: u32, p6: int|
                and_next(repeat(point_at(d), n as nat, p6, Seq::empty()), |points: Seq<Point>, p7: int|
                    Decoded::Done(LineView { points, tool, color, brush_size }, p7)))))),
        }),
    })
}

pub open spec fn line_at(d: Seq<u8>, version: u32) -> spec_fn(int) -> Decoded<LineView> {
    |p: int| spec_line(d, p, version)
}

fn read_points(reader: &mut Bitreader, version: u32, count: u32) -> (r: Result<Vec<Point>, ParseError>)
    ensures
        final(reader).bytes() == old(reader).bytes(),
        agrees(r, repeat(point_at(old(reader).bytes()), count as nat, old(reader).at(), Seq::empty()), final(reader).at()),
{
    let ghost d = reader.bytes();
    let ghost item = point_at(d);
    let mut out: Vec<Point> = Vec::new();
    let mut i: u32 = 0;
    while i < count
        invariant
            reader.bytes() == d,
            d == old(reader).bytes(),
            item == point_at(d),
            i <= count,
            repeat(item, count as nat, old(reader).at(), Seq::empty())
                == repeat(item, (count - i) as nat, reader.at(), out@),
        decreases count - i,
    {
        assert(item(reader.at()) == spec_point(d, reader.at()));
        let pt = Point::parse(version, reader)?;
        out.push(pt);
        i = i + 1;
    }
    Ok(out)
}

impl Line {
    pub fn parse(version: u32, reader: &mut Bitreader) -> (r: Result<Line, ParseError>)
        ensures
            final(reader).bytes() == old(reader).bytes(),
            agrees(r, spec_line(old(reader).bytes(), old(reader).at(), version), final(reader).at()),
    {
        let tool = Tool::from_code(reader.read_u32()?)?;
        let color = Color::from_code(reader.read_u32()?)?;
        reader.read_u32()?;
        let brush_size = reader.read_f32_bits()?;
        if version >= 5 {
            reader.read_u32()?;
        }
        let amount_points = reader.read_u32()?;
        let points = read_points(reader, version, amount_points)?;
        Ok(Line { points, tool, color, brush_size })
    }
}

/// A layer of a page: its lines.
#[derive(Debug)]
pub struct Layer {
    pub lines: Vec<Line>,
}

impl View for Layer {
    type V = Seq<LineView>;

    open spec fn view(&self) -> Seq<LineView> {
        self.lines@.map_values(|l: Line| l@)
    }
}

/// A layer: a count of lines, then the lines.
pub open spec fn spec_layer(d: Seq<u8>, p: int, version: u32) -> Decoded<Seq<LineView>> {
    and_next(spec_u32(d, p), |n: u32, p1: int| repeat(line_at(d, version), n as nat, p1, Seq::empty()))
}

pub open spec fn layer_at(d: Seq<u8>, version: u32) -> spec_fn(int) -> Decoded<Seq<LineView>> {
    |p: int| spec_layer(d, p, version)
}

impl Layer {
    pub fn parse(version: u32, reader: &mut Bitreader) -> (r: Result<Layer, ParseError>)
        ensures
            final(reader).bytes() == old(reader).bytes(),
            agrees(r, spec_layer(old(reader).bytes(), old(reader).at(), version), final(reader).at()),
    {
        let ghost d = reader.bytes();
        let ghost item = line_at(d, version);
        let count = reader.read_u32()?;
        let ghost p1 = reader.at();
        let mut lines: Vec<Line> = Vec::new();
        let mut i: u32 = 0;
        assert(lines@.map_values(|l: Line| l@) =~= Seq::<LineView>::empty());
        while i < count
            invariant
                reader.bytes() == d,
                d == old(reader).bytes(),
                item == line_at(d, version),
                i <= count,
                spec_layer(d, old(reader).at(), version) == repeat(item, count as nat, p1, Seq::empty()),
                repeat(item, count as nat, p1, Seq::empty())
                    == repeat(item, (count - i) as nat, reader.at(), lines@.map_values(|l: Line| l@)),
            decreases count - i,
        {
            assert(item(reader.at()) == spec_line(d, reader.at(), version));
            let line = Line::parse(version, reader)?;
            let ghost before = lines@.map_values(|l: Line| l@);
            let ghost lv = line@;
            lines.push(line);
            assert(lines@.map_values(|l: Line| l@) =~= before.push(lv));
            i = i + 1;
        }
        Ok(Layer { lines })
    }
}

/// A page: its layers.
#[derive(Debug)]
pub struct Page {
    pub layers: Vec<Layer>,
}

impl View for Page {
    type V = Seq<Seq<LineView>>;

    open spec fn view(&self) -> Seq<Seq<LineView>> {
        self.layers@.map_values(|l: Layer| l@)
    }
}

/// A page: a count of layers, then the layers.
pub open spec fn spec_page(d: Seq<u8>, p: int, version: u32) -> Decoded<Seq<Seq<LineView>>> {
    and_next(spec_u32(d, p), |n: u32, p1: int| repeat(layer_at(d, version), n as nat, p1, Seq::empty()))
}

impl Page {
    pub fn parse(version: u32, reader: &mut Bitreader) -> (r: Result<Page, ParseError>)
        ensures
            final(reader).bytes() == old(reader).bytes(),
            agrees(r, spec_page(old(reader).bytes(), old(reader).at(), version), final(reader).at()),
    {
        let ghost d = reader.bytes();
        let ghost item = layer_at(d, version);
        let count = reader.read_u32()?;
        let ghost p1 = reader.at();
        let mut layers: Vec<Layer> = Vec::new();
        let mut i: u32 = 0;
        assert(layers@.map_values(|l: Layer| l@) =~= Seq::<Seq<LineView>>::empty());
        while i < count
            invariant
                reader.bytes() == d,
                d == old(reader).bytes(),
                item == layer_at(d, version),
                i <= count,
                spec_page(d, old(reader).at(), version) == repeat(item, count as nat, p1, Seq::empty()),
                repeat(item, count as nat, p1, Seq::empty())
                    == repeat(item, (count - i) as nat, reader.at(), layers@.map_values(|l: Layer| l@)),
            decreases count - i,
        {
            assert(item(reader.at()) == spec_layer(d, reader.at(), version));
            let layer = Layer::parse(version, reader)?;
            let ghost before = layers@.map_values(|l: Layer| l@);
            let ghost lv = layer@;
            layers.push(layer);
            assert(layers@.map_values(|l: Layer| l@) =~= before.push(lv));
            i = i + 1;
        }
        Ok(Page { layers })
    }
}

} // verus!
