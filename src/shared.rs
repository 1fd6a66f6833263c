use vstd::prelude::*;

use crate::parse_error::{ParseError, ParseErrorKind};

verus! {

/// The color of a stroke.
#[derive(Debug, Clone, Copy, PartialEq, Eq, Structural)]
pub enum PenColor {
    Black,
    Grey,
    White,
    Yellow,
    Green,
    Pink,
    Blue,
    Red,
    GreyOverlap,
}

impl View for PenColor {
    type V = PenColor;

    open spec fn view(&self) -> PenColor {
        *self
    }
}

pub open spec fn pen_color_of(v: int) -> Option<PenColor> {
    if v == 0 { Some(PenColor::Black) }
    else if v == 1 { Some(PenColor::Grey) }
    else if v == 2 { Some(PenColor::White) }
    else if v == 3 { Some(PenColor::Yellow) }
    else if v == 4 { Some(PenColor::Green) }
    else if v == 5 { Some(PenColor::Pink) }
    else if v == 6 { Some(PenColor::Blue) }
    else if v == 7 { Some(PenColor::Red) }
    else if v == 8 { Some(PenColor::GreyOverlap) }
    else { None }
}

impl PenColor {
    pub fn from_code(value: u32) -> (r: Result<PenColor, ParseError>)
        ensures
            match pen_color_of(value as int) {
                Some(c) => r == Ok::<PenColor, ParseError>(c),
                None => r matches Err(e) && e.kind == ParseErrorKind::InvalidInput,
            },
    {
        match value {
            0 => Ok(PenColor::Black),
            1 => Ok(PenColor::Grey),
            2 => Ok(PenColor::White),
            3 => Ok(PenColor::Yellow),
            4 => Ok(PenColor::Green),
            5 => Ok(PenColor::Pink),
            6 => Ok(PenColor::Blue),
            7 => Ok(PenColor::Red),
            8 => Ok(PenColor::GreyOverlap),
            _ => Err(ParseError::invalid("Invalid color")),
        }
    }
}

/// The color of a stroke in the older formats, which know fewer of them.
#[derive(Debug, Clone, Copy, PartialEq, Eq, Structural)]
pub enum Color {
    Black,
    Grey,
    White,
    Blue,
    Red,
}

impl View for Color {
    type V = Color;

    open spec fn view(&self) -> Color {
        *self
    }
}

pub open spec fn color_of(v: int) -> Option<Color> {
    if v == 0 { Some(Color::Black) }
    else if v == 1 { Some(Color::Grey) }
    else if v == 2 { Some(Color::White) }
    else if v == 6 { Some(Color::Red) }
    else if v == 7 { Some(Color::Blue) }
    else { None }
}

impl Color {
    pub fn from_code(value: u32) -> (r: Result<Color, ParseError>)
        ensures
            match color_of(value as int) {
                Some(c) => r == Ok::<Color, ParseError>(c),
                None => r matches Err(e) && e.kind == ParseErrorKind::InvalidInput,
            },
    {
        match value {
            0 => Ok(Color::Black),
            1 => Ok(Color::Grey),
            2 => Ok(Color::White),
            6 => Ok(Color::Red),
            7 => Ok(Color::Blue),
            _ => Err(ParseError::invalid("Invalid color")),
        }
    }
}

/// The tool a stroke was drawn with.
#[derive(Debug, Clone, Copy, PartialEq, Eq, Structural)]
pub enum Tool {
    Brush,
    Pencil,
    BallPoint,
    Marker,
    FineLiner,
    Highlighter,
    Eraser,
    MechanicalPencil,
    EraseArea,
    EraseAll,
    SelectionBrush,
    Calligraphy,
}

impl View for Tool {
    type V = Tool;

    open spec fn view(&self) -> Tool {
        *self
    }
}

/// Most tools have two codes, one of the first and one of the second
/// generation of the device.
pub open spec fn tool_of(v: int) -> Option<Tool> {
    if v == 0x00 || v == 0x0c { Some(Tool::Brush) }
    else if v == 0x01 || v == 0x0e { Some(Tool::Pencil) }
    else if v == 0x02 || v == 0x0f { Some(Tool::BallPoint) }
    else if v == 0x03 || v == 0x10 { Some(Tool::Marker) }
    else if v == 0x04 || v == 0x11 { Some(Tool::FineLiner) }
    else if v == 0x05 || v == 0x12 { Some(Tool::Highlighter) }
    else if v == 0x06 { Some(Tool::Eraser) }
    else if v == 0x07 || v == 0x0d { Some(Tool::MechanicalPencil) }
    else if v == 0x08 { Some(Tool::EraseArea) }
    else if v == 0x09 { Some(Tool::EraseAll) }
    else if v == 0x0a || v == 0x0b { Some(Tool::SelectionBrush) }
    else if v == 0x15 { Some(Tool::Calligraphy) }
    else { None }
}

impl Tool {
    pub fn from_code(value: u32) -> (r: Result<Tool, ParseError>)
        ensures
            match tool_of(value as int) {
                Some(t) => r == Ok::<Tool, ParseError>(t),
                None => r matches Err(e) && e.kind == ParseErrorKind::InvalidInput,
            },
    {
        match value {
            0x00 | 0x0c => Ok(Tool::Brush),
            0x01 | 0x0e => Ok(Tool::Pencil),
            0x02 | 0x0f => Ok(Tool::BallPoint),
            0x03 | 0x10 => Ok(Tool::Marker),
            0x04 | 0x11 => Ok(Tool::FineLiner),
            0x05 | 0x12 => Ok(Tool::Highlighter),
            0x06 => Ok(Tool::Eraser),
            0x07 | 0x0d => Ok(Tool::MechanicalPencil),
            0x08 => Ok(Tool::EraseArea),
            0x09 => Ok(Tool::EraseAll),
            0x0a | 0x0b => Ok(Tool::SelectionBrush),
            0x15 => Ok(Tool::Calligraphy),
            _ => Err(ParseError::invalid("Invalid tool")),
        }
    }
}

} // verus!
