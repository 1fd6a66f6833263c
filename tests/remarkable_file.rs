use remarkable_lines::bitreader::Bitreader;
use remarkable_lines::block::{Block, BlockInfo};
use remarkable_lines::crdt::{CrdtId, CrdtSequence, CrdtSequenceItem};
use remarkable_lines::other::Page;
use remarkable_lines::scene_item::{point_serialize_size, Group, ParagraphStyle, SceneItem, TextItem};
use remarkable_lines::scene_tree::SceneTree;
use remarkable_lines::shared::{Color, PenColor, Tool};
use remarkable_lines::tagged_bit_reader::{Tag, TagType, TaggedBitreader};
use remarkable_lines::{ParseError, ParseErrorKind, RemarkableFile};

// ---------------------------------------------------------------------------
// Writers for the wire format, used to build inputs.
// ---------------------------------------------------------------------------

fn varuint(mut v: u32) -> Vec<u8> {
    let mut out = Vec::new();
    loop {
        let b = (v & 0x7f) as u8;
        v >>= 7;
        if v == 0 {
            out.push(b);
            return out;
        }
        out.push(b | 0x80);
    }
}

fn tag(index: u32, code: u32) -> Vec<u8> {
    varuint((index << 4) | code)
}

fn id(index: u32, part1: u8, part2: u32) -> Vec<u8> {
    let mut out = tag(index, 0xF);
    out.push(part1);
    out.extend(varuint(part2));
    out
}

fn u8_field(index: u32, v: u8) -> Vec<u8> {
    let mut out = tag(index, 0x1);
    out.push(v);
    out
}

fn u32_field(index: u32, v: u32) -> Vec<u8> {
    let mut out = tag(index, 0x4);
    out.extend(v.to_le_bytes());
    out
}

fn f32_field(index: u32, v: f32) -> Vec<u8> {
    let mut out = tag(index, 0x4);
    out.extend(v.to_le_bytes());
    out
}

fn f64_field(index: u32, v: f64) -> Vec<u8> {
    let mut out = tag(index, 0x8);
    out.extend(v.to_le_bytes());
    out
}

fn subblock(index: u32, content: Vec<u8>) -> Vec<u8> {
    let mut out = tag(index, 0xC);
    out.extend((content.len() as u32).to_le_bytes());
    out.extend(content);
    out
}

fn string_body(s: &str) -> Vec<u8> {
    let mut out = varuint(s.len() as u32);
    out.push(1);
    out.extend(s.as_bytes());
    out
}

fn lww_string(index: u32, ts: (u8, u32), s: &str) -> Vec<u8> {
    let mut content = id(1, ts.0, ts.1);
    content.extend(subblock(2, string_body(s)));
    subblock(index, content)
}

fn lww_bool(index: u32, ts: (u8, u32), v: bool) -> Vec<u8> {
    let mut content = id(1, ts.0, ts.1);
    content.extend(u8_field(2, v as u8));
    subblock(index, content)
}

fn block(block_type: u8, version: u8, payload: Vec<u8>) -> Vec<u8> {
    let mut out = (payload.len() as u32).to_le_bytes().to_vec();
    out.push(0);
    out.push(1);
    out.push(version);
    out.push(block_type);
    out.extend(payload);
    out
}

fn header(version: &str) -> Vec<u8> {
    let mut h = format!("reMarkable .lines file, version={version}").into_bytes();
    while h.len() < 43 {
        h.push(b' ');
    }
    h
}

fn uuid_bytes() -> Vec<u8> {
    vec![0x9f, 0xa5, 0x5b, 0x49, 0x43, 0xc9, 0x5c, 0x2b, 0xb4, 0x55, 0x36, 0x82, 0xf6, 0x94, 0x89, 0x06]
}

fn authors_block() -> Vec<u8> {
    let mut entry = varuint(16);
    entry.extend(uuid_bytes());
    entry.extend(1u16.to_le_bytes());
    let mut payload = varuint(1);
    payload.extend(subblock(0, entry));
    block(0x09, 1, payload)
}

fn migration_block() -> Vec<u8> {
    let mut payload = id(1, 1, 1);
    payload.extend(u8_field(2, 1));
    block(0x00, 1, payload)
}

fn page_info_block() -> Vec<u8> {
    let mut payload = u32_field(1, 1);
    payload.extend(u32_field(2, 0));
    payload.extend(u32_field(3, 3));
    payload.extend(u32_field(4, 1));
    block(0x0A, 1, payload)
}

fn scene_tree_block() -> Vec<u8> {
    let mut payload = id(1, 0, 11);
    payload.extend(id(2, 0, 0));
    payload.extend(u8_field(3, 1));
    payload.extend(subblock(4, id(1, 0, 1)));
    block(0x01, 1, payload)
}

fn root_text_block() -> Vec<u8> {
    let mut item = id(2, 1, 16);
    item.extend(id(3, 0, 0));
    item.extend(id(4, 0, 0));
    item.extend(u32_field(5, 0));
    item.extend(subblock(6, string_body("AB")));
    let mut items = varuint(1);
    items.extend(subblock(0, item));
    let mut style_entry = vec![0u8];
    style_entry.extend(varuint(0));
    style_entry.extend(id(1, 1, 15));
    style_entry.extend(subblock(2, vec![17, 1]));
    let mut styles = varuint(1);
    styles.extend(style_entry);
    let mut text = subblock(1, subblock(1, items));
    text.extend(subblock(2, subblock(1, styles)));
    let mut payload = id(1, 0, 0);
    payload.extend(subblock(2, text));
    let mut position = (-468.0f64).to_le_bytes().to_vec();
    position.extend(234.0f64.to_le_bytes());
    payload.extend(subblock(3, position));
    payload.extend(f32_field(4, 936.0));
    block(0x07, 1, payload)
}

fn tree_node_block(node: u32, label: Option<((u8, u32), &str)>) -> Vec<u8> {
    let mut payload = id(1, 0, node);
    let (ts, text) = label.unwrap_or(((0, 0), ""));
    payload.extend(lww_string(2, ts, text));
    payload.extend(lww_bool(3, (0, 0), true));
    block(0x02, 1, payload)
}

fn group_item_block(parent: u32, item: u32, child: u32) -> Vec<u8> {
    let mut payload = id(1, 0, parent);
    payload.extend(id(2, 0, item));
    payload.extend(id(3, 0, 0));
    payload.extend(id(4, 0, 0));
    payload.extend(u32_field(5, 0));
    let mut value = vec![2u8];
    value.extend(id(2, 0, child));
    payload.extend(subblock(6, value));
    block(0x04, 1, payload)
}

fn line_block(version: u8, points_bytes: Vec<u8>) -> Vec<u8> {
    let mut line = vec![3u8];
    line.extend(u32_field(1, 2));
    line.extend(u32_field(2, 0));
    line.extend(f64_field(3, 1.0));
    line.extend(f32_field(4, 0.0));
    line.extend(subblock(5, points_bytes));
    line.extend(id(6, 0, 1));
    let mut payload = id(1, 0, 11);
    payload.extend(id(2, 0, 20));
    payload.extend(id(3, 0, 0));
    payload.extend(id(4, 0, 0));
    payload.extend(u32_field(5, 0));
    payload.extend(subblock(6, line));
    block(0x05, version, payload)
}

fn ab_file() -> Vec<u8> {
    let mut f = header("6");
    f.extend(authors_block());
    f.extend(migration_block());
    f.extend(page_info_block());
    f.extend(scene_tree_block());
    f.extend(root_text_block());
    f.extend(tree_node_block(1, None));
    f.extend(tree_node_block(11, Some(((0, 12), "Layer 1"))));
    f.extend(group_item_block(1, 13, 11));
    f
}

fn tagged(bytes: Vec<u8>) -> TaggedBitreader {
    TaggedBitreader::new(Bitreader::new(bytes))
}

fn kind_of<T>(r: Result<T, ParseError>) -> ParseErrorKind {
    match r {
        Ok(_) => panic!("expected an error"),
        Err(e) => e.kind,
    }
}

fn cid(part1: u8, part2: u32) -> CrdtId {
    CrdtId { part1, part2 }
}

// ---------------------------------------------------------------------------
// Primitive reads
// ---------------------------------------------------------------------------

#[test]
fn little_endian_reads() {
    let mut r = Bitreader::new(vec![0x01, 0x02, 0x03, 0x04, 0x05, 0x06, 0x07]);
    assert_eq!(r.read_u16().unwrap(), 0x0201);
    assert_eq!(r.read_u32().unwrap(), 0x06050403);
    assert_eq!(r.position(), 6);
    assert_eq!(kind_of(r.read_u16()), ParseErrorKind::Io);
    assert_eq!(r.read_u8().unwrap(), 7);
    assert!(r.eof().unwrap());
}

#[test]
fn eof_does_not_move_the_cursor() {
    let r = Bitreader::new(vec![1, 2]);
    assert!(!r.eof().unwrap());
    assert_eq!(r.position(), 0);
}

#[test]
fn float_bits_are_kept() {
    let mut bytes = 1.5f32.to_le_bytes().to_vec();
    bytes.extend((-468.0f64).to_le_bytes());
    let mut r = Bitreader::new(bytes);
    assert_eq!(f32::from_bits(r.read_f32_bits().unwrap()), 1.5);
    assert_eq!(f64::from_bits(r.read_f64_bits().unwrap()), -468.0);
}

#[test]
fn varuint_round_trip() {
    for (v, len) in [(0u32, 1u64), (127, 1), (128, 2), (300, 2), (16383, 2), (16384, 3), (0x1FFFFF, 3), (0x200000, 4), (0x0FFFFFFF, 4), (0x10000000, 5), (u32::MAX, 5)] {
        let mut r = Bitreader::new(varuint(v));
        assert_eq!(r.read_varuint().unwrap(), v);
        assert_eq!(r.position(), len);
    }
}

#[test]
fn varuint_exact_value() {
    let mut r = Bitreader::new(vec![0xAC, 0x02]);
    assert_eq!(r.read_varuint().unwrap(), 300);
}

#[test]
fn varuint_too_long_or_too_large() {
    let mut r = Bitreader::new(vec![0x80, 0x80, 0x80, 0x80, 0x80, 0x01]);
    assert_eq!(kind_of(r.read_varuint()), ParseErrorKind::InvalidInput);
    let mut r = Bitreader::new(vec![0xFF, 0xFF, 0xFF, 0xFF, 0x1F]);
    assert_eq!(kind_of(r.read_varuint()), ParseErrorKind::InvalidInput);
    let mut r = Bitreader::new(vec![0x80]);
    assert_eq!(kind_of(r.read_varuint()), ParseErrorKind::Io);
}

#[test]
fn uuid_mixed_endian() {
    let mut bytes = varuint(16);
    bytes.extend(uuid_bytes());
    let mut r = Bitreader::new(bytes);
    assert_eq!(r.read_uuid().unwrap(), "495ba59f-c943-2b5c-b455-3682f6948906");
    assert_eq!(r.position(), 17);
}

#[test]
fn uuid_length_must_be_sixteen() {
    let mut bytes = varuint(15);
    bytes.extend(uuid_bytes());
    let mut r = Bitreader::new(bytes);
    assert_eq!(kind_of(r.read_uuid()), ParseErrorKind::InvalidInput);
}

#[test]
fn strings_must_be_utf8() {
    let mut r = Bitreader::new("héllo".as_bytes().to_vec());
    assert_eq!(r.read_string(6).unwrap(), "héllo");
    let mut r = Bitreader::new(vec![0x61, 0xFF, 0x62]);
    assert_eq!(kind_of(r.read_string(3)), ParseErrorKind::InvalidInput);
    let mut r = Bitreader::new(vec![0x61]);
    assert_eq!(kind_of(r.read_string(2)), ParseErrorKind::Io);
}

// ---------------------------------------------------------------------------
// Tags and tagged reads
// ---------------------------------------------------------------------------

#[test]
fn tag_fields() {
    let mut bytes = u32_field(3, 7);
    bytes.extend(id(1, 2, 300));
    let mut r = tagged(bytes);
    assert_eq!(r.read_u32(3).unwrap(), 7);
    assert_eq!(r.read_id(1).unwrap(), cid(2, 300));
}

#[test]
fn tag_with_undefined_type() {
    let mut r = tagged(vec![0x12, 0, 0, 0, 0]);
    assert_eq!(kind_of(r.read_tag(1, TagType::Byte4)), ParseErrorKind::InvalidInput);
    assert_eq!(kind_of(TagType::from_code(0x2)), ParseErrorKind::InvalidInput);
}

#[test]
fn tag_with_wrong_index_or_type() {
    let mut r = tagged(u32_field(2, 7));
    assert_eq!(kind_of(r.read_u32(3)), ParseErrorKind::InvalidInput);
    let mut r = tagged(u32_field(2, 7));
    assert_eq!(kind_of(r.read_u8(2)), ParseErrorKind::InvalidInput);
    let t = Tag { index: 2, tag_type: TagType::Byte4 };
    assert!(t.validate(TagType::Byte4, 2).is_ok());
    assert_eq!(kind_of(t.validate(TagType::Byte1, 2)), ParseErrorKind::InvalidInput);
}

#[test]
fn has_tag_restores_position() {
    let mut r = tagged(u32_field(2, 7));
    assert!(r.has_tag(2, TagType::Byte4).unwrap());
    assert!(!r.has_tag(3, TagType::Byte4).unwrap());
    assert!(!r.has_subblock(2).unwrap());
    assert_eq!(r.bit_reader.position(), 0);
}

#[test]
fn subblock_size_is_checked() {
    let mut r = tagged(subblock(1, u32_field(1, 5)));
    let b = r.read_subblock(1).unwrap();
    assert_eq!(b.size, 5);
    assert_eq!(kind_of(b.validate_size(&r)), ParseErrorKind::InvalidInput);
    r.read_u32(1).unwrap();
    assert!(b.validate_size(&r).is_ok());
    assert_eq!(r.bit_reader.position(), 1 + 4 + 5);
}

#[test]
fn tagged_string_and_registers() {
    let mut bytes = subblock(4, string_body("Layer 1"));
    bytes.extend(lww_string(2, (0, 12), "Layer 1"));
    bytes.extend(lww_bool(3, (0, 5), false));
    let mut r = tagged(bytes);
    assert_eq!(r.read_string(4).unwrap(), "Layer 1");
    let label = r.read_lww_string(2).unwrap();
    assert_eq!(label.timestamp, cid(0, 12));
    assert_eq!(label.value, "Layer 1");
    let visible = r.read_lww_bool(3).unwrap();
    assert_eq!(visible.timestamp, cid(0, 5));
    assert!(!visible.value);
}

// ---------------------------------------------------------------------------
// Enumerations
// ---------------------------------------------------------------------------

#[test]
fn enumeration_codes() {
    assert_eq!(PenColor::from_code(6).unwrap(), PenColor::Blue);
    assert_eq!(PenColor::from_code(8).unwrap(), PenColor::GreyOverlap);
    assert_eq!(kind_of(PenColor::from_code(9)), ParseErrorKind::InvalidInput);
    assert_eq!(Color::from_code(6).unwrap(), Color::Red);
    assert_eq!(kind_of(Color::from_code(3)), ParseErrorKind::InvalidInput);
    assert_eq!(Tool::from_code(0x0c).unwrap(), Tool::Brush);
    assert_eq!(Tool::from_code(0x15).unwrap(), Tool::Calligraphy);
    assert_eq!(kind_of(Tool::from_code(0x13)), ParseErrorKind::InvalidInput);
    assert_eq!(ParagraphStyle::from_code(5).unwrap(), ParagraphStyle::Bullet2);
    assert_eq!(kind_of(ParagraphStyle::from_code(6)), ParseErrorKind::InvalidInput);
    assert_eq!(point_serialize_size(1).unwrap(), 24);
    assert_eq!(point_serialize_size(2).unwrap(), 14);
    assert_eq!(kind_of(point_serialize_size(3)), ParseErrorKind::Unsupported);
}

// ---------------------------------------------------------------------------
// Blocks
// ---------------------------------------------------------------------------

#[test]
fn block_advances_by_size_and_frame() {
    let bytes = page_info_block();
    let size = u32::from_le_bytes([bytes[0], bytes[1], bytes[2], bytes[3]]) as u64;
    let mut r = tagged(bytes);
    let b = Block::parse(&mut r).unwrap();
    assert!(matches!(b, Block::PageInfo(_)));
    assert_eq!(r.bit_reader.position(), size + 8);
}

#[test]
fn block_size_one_too_long() {
    let mut bytes = page_info_block();
    let size = u32::from_le_bytes([bytes[0], bytes[1], bytes[2], bytes[3]]) + 1;
    bytes[..4].copy_from_slice(&size.to_le_bytes());
    bytes.extend(migration_block());
    let mut r = tagged(bytes.clone());
    assert_eq!(kind_of(Block::parse(&mut r)), ParseErrorKind::InvalidInput);
    let mut file = header("6");
    file.extend(bytes);
    match RemarkableFile::read(&file) {
        Ok(_) => panic!("expected an error"),
        Err(e) => {
            assert_eq!(e.kind, ParseErrorKind::InvalidInput);
            assert!(e.context.starts_with("error occurred while parsing at byte position: "));
        }
    }
}

#[test]
fn unknown_block_type() {
    let mut r = tagged(block(0x08, 1, vec![]));
    assert_eq!(kind_of(Block::parse(&mut r)), ParseErrorKind::InvalidInput);
}

#[test]
fn current_version_below_minimal() {
    let mut bytes = page_info_block();
    bytes[5] = 2;
    bytes[6] = 1;
    let mut r = tagged(bytes);
    assert_eq!(kind_of(Block::parse(&mut r)), ParseErrorKind::InvalidInput);
}

#[test]
fn line_points_compact_and_wide() {
    let mut compact = Vec::new();
    for _ in 0..2 {
        compact.extend(1.0f32.to_le_bytes());
        compact.extend(2.0f32.to_le_bytes());
        compact.extend(3u16.to_le_bytes());
        compact.extend(4u16.to_le_bytes());
        compact.push(5);
        compact.push(6);
    }
    let mut r = tagged(line_block(2, compact));
    match Block::parse(&mut r).unwrap() {
        Block::SceneLineItem(b) => {
            let line = b.item.value.unwrap();
            assert_eq!(line.points.len(), 2);
            assert_eq!(line.tool, Tool::BallPoint);
            assert_eq!(line.timestamp, cid(0, 1));
        }
        _ => panic!("expected a line"),
    }
    let wide = vec![0u8; 24];
    let mut r = tagged(line_block(1, wide));
    match Block::parse(&mut r).unwrap() {
        Block::SceneLineItem(b) => assert_eq!(b.item.value.unwrap().points.len(), 1),
        _ => panic!("expected a line"),
    }
}

#[test]
fn line_points_not_a_multiple() {
    let mut r = tagged(line_block(2, vec![0u8; 15]));
    assert_eq!(kind_of(Block::parse(&mut r)), ParseErrorKind::InvalidInput);
    let mut r = tagged(line_block(3, vec![0u8; 14]));
    assert_eq!(kind_of(Block::parse(&mut r)), ParseErrorKind::Unsupported);
}

#[test]
fn scene_item_type_must_match() {
    let mut payload = id(1, 0, 1);
    payload.extend(id(2, 0, 13));
    payload.extend(id(3, 0, 0));
    payload.extend(id(4, 0, 0));
    payload.extend(u32_field(5, 0));
    let mut value = vec![3u8];
    value.extend(id(2, 0, 11));
    payload.extend(subblock(6, value));
    let mut r = tagged(block(0x04, 1, payload));
    assert_eq!(kind_of(Block::parse(&mut r)), ParseErrorKind::InvalidInput);
}

// ---------------------------------------------------------------------------
// Whole files
// ---------------------------------------------------------------------------

#[test]
fn v6_ab_blocks() {
    let file = RemarkableFile::read(&ab_file()).unwrap();
    assert_eq!(file.version(), 6);
    let (tree, blocks) = match file {
        RemarkableFile::V6 { tree, blocks } => (tree, blocks),
        RemarkableFile::Other { .. } => panic!("invalid version"),
    };
    assert_eq!(blocks.len(), 8);
    match &blocks[0] {
        Block::AuthorsIds(a) => {
            assert_eq!(a.authors.len(), 1);
            assert_eq!(a.authors[&1], "495ba59f-c943-2b5c-b455-3682f6948906");
        }
        _ => panic!("expected authors"),
    }
    match &blocks[1] {
        Block::MigrationInfo(m) => {
            assert_eq!(m.migration_id, cid(1, 1));
            assert!(m.is_device);
        }
        _ => panic!("expected migration info"),
    }
    match &blocks[2] {
        Block::PageInfo(p) => {
            assert_eq!((p.loads_count, p.merges_count, p.text_chars_count, p.text_lines_count), (1, 0, 3, 1));
        }
        _ => panic!("expected page info"),
    }
    match &blocks[3] {
        Block::SceneTree(s) => {
            assert_eq!(s.tree_id, cid(0, 11));
            assert_eq!(s.node_id, cid(0, 0));
            assert!(s.is_update);
            assert_eq!(s.parent_id, cid(0, 1));
        }
        _ => panic!("expected scene tree"),
    }
    match &blocks[4] {
        Block::RootText(t) => {
            assert_eq!(t.block_id, cid(0, 0));
            assert_eq!(t.text.items.items.len(), 1);
            let item = &t.text.items.items[0];
            assert_eq!(item.item_id, cid(1, 16));
            assert_eq!(item.left_id, cid(0, 0));
            assert_eq!(item.right_id, cid(0, 0));
            assert_eq!(item.deleted_length, 0);
            assert!(matches!(&item.value, TextItem::Text(s) if s == "AB"));
            assert_eq!(t.text.styles.len(), 1);
            assert_eq!(t.text.styles[0].0, cid(0, 0));
            assert_eq!(t.text.styles[0].1.timestamp, cid(1, 15));
            assert_eq!(t.text.styles[0].1.value, ParagraphStyle::Plain);
            assert_eq!(f64::from_bits(t.text.x), -468.0);
            assert_eq!(f64::from_bits(t.text.y), 234.0);
            assert_eq!(f32::from_bits(t.text.width), 936.0);
        }
        _ => panic!("expected root text"),
    }
    match &blocks[5] {
        Block::TreeNode(n) => {
            assert_eq!(n.group.node_id, cid(0, 1));
            assert_eq!(n.group.label.value, "");
        }
        _ => panic!("expected tree node"),
    }
    match &blocks[6] {
        Block::TreeNode(n) => {
            assert_eq!(n.group.node_id, cid(0, 11));
            assert_eq!(n.group.label.timestamp, cid(0, 12));
            assert_eq!(n.group.label.value, "Layer 1");
        }
        _ => panic!("expected tree node"),
    }
    match &blocks[7] {
        Block::SceneGroupItem(g) => {
            assert_eq!(g.parent_id, cid(0, 1));
            assert_eq!(g.item.item_id, cid(0, 13));
            assert_eq!(g.item.deleted_length, 0);
            assert_eq!(g.item.value, Some(cid(0, 11)));
        }
        _ => panic!("expected group item"),
    }
    let root = tree.get_node(&cid(0, 1)).unwrap();
    assert_eq!(root.children.items.len(), 1);
    assert!(matches!(root.children.items[0].value, SceneItem::Group(c) if c == cid(0, 11)));
    assert_eq!(tree.get_node(&cid(0, 11)).unwrap().label.value, "Layer 1");
    assert!(tree.root_text.is_some());
}

#[test]
fn decoding_twice_gives_the_same() {
    let a = format!("{:?}", RemarkableFile::read(&ab_file()).unwrap());
    let b = format!("{:?}", RemarkableFile::read(&ab_file()).unwrap());
    assert_eq!(a, b);
}

fn v5_file(version: &str, lines: u32) -> Vec<u8> {
    let mut f = header(version);
    f.extend(1u32.to_le_bytes());
    f.extend(lines.to_le_bytes());
    for _ in 0..lines {
        f.extend(2u32.to_le_bytes());
        f.extend(0u32.to_le_bytes());
        f.extend(0u32.to_le_bytes());
        f.extend(2.0f32.to_le_bytes());
        if version == "5" {
            f.extend(0u32.to_le_bytes());
        }
        f.extend(1u32.to_le_bytes());
        f.extend([0u8; 24]);
    }
    f
}

#[test]
fn v5_one_page_one_layer() {
    let file = RemarkableFile::read(&v5_file("5", 139)).unwrap();
    assert_eq!(file.version(), 5);
    match file {
        RemarkableFile::V6 { .. } => panic!("invalid version"),
        RemarkableFile::Other { pages, .. } => {
            assert_eq!(pages.len(), 1);
            assert_eq!(pages[0].layers.len(), 1);
            assert_eq!(pages[0].layers[0].lines.len(), 139);
            assert_eq!(f32::from_bits(pages[0].layers[0].lines[0].brush_size), 2.0);
        }
    }
}

#[test]
fn v3_has_no_extra_field() {
    let file = RemarkableFile::read(&v5_file("3", 2)).unwrap();
    assert_eq!(file.version(), 3);
}

#[test]
fn version_dispatch() {
    for v in ["4", "7", "2", "x"] {
        let mut f = header(v);
        f.extend([0u8; 8]);
        match RemarkableFile::read(&f) {
            Err(e) => assert_eq!(e.kind, ParseErrorKind::Unsupported),
            Ok(_) => panic!("version {v} should not be read"),
        }
    }
    let mut f = b"reMarkable lines with selections and layers".to_vec();
    f.extend([0u8; 8]);
    assert_eq!(kind_of(RemarkableFile::read(&f)), ParseErrorKind::Unsupported);
    let empty_v6 = header("6");
    let file = RemarkableFile::read(&empty_v6).unwrap();
    assert_eq!(file.version(), 6);
}

#[test]
fn short_header() {
    match RemarkableFile::read(b"reMarkable") {
        Err(e) => {
            assert_eq!(e.kind, ParseErrorKind::Io);
            assert_eq!(e.context, "error occurred while parsing at byte position: 0");
        }
        Ok(_) => panic!("expected an error"),
    }
}

#[test]
fn error_context_names_the_position() {
    let mut r = Bitreader::new(vec![0; 300]);
    r.set_position(0x12c);
    let e = ParseError::invalid("x").with_context_from_bitreader(&r);
    assert_eq!(e.context, "error occurred after data has been read.");
    r.set_position(0x11f);
    let e = ParseError::invalid("x").with_context_from_bitreader(&r);
    assert_eq!(e.context, "error occurred while parsing at byte position: 11f");
    assert_eq!(e.message, "x");
}

// ---------------------------------------------------------------------------
// Scene tree
// ---------------------------------------------------------------------------

#[test]
fn tree_rejects_missing_parent_and_child() {
    let mut blocks_bytes = group_item_block(5, 13, 1);
    let mut r = tagged(blocks_bytes.clone());
    let b = Block::parse(&mut r).unwrap();
    assert_eq!(kind_of(SceneTree::from_blocks(&vec![b])), ParseErrorKind::InvalidInput);
    blocks_bytes = group_item_block(1, 13, 42);
    let mut r = tagged(blocks_bytes);
    let b = Block::parse(&mut r).unwrap();
    assert_eq!(kind_of(SceneTree::from_blocks(&vec![b])), ParseErrorKind::InvalidInput);
}

#[test]
fn tree_node_keeps_children() {
    let mut bytes = scene_tree_block();
    bytes.extend(group_item_block(1, 13, 11));
    bytes.extend(tree_node_block(1, Some(((0, 3), "Root"))));
    let mut r = tagged(bytes);
    let mut blocks = Vec::new();
    for _ in 0..3 {
        blocks.push(Block::parse(&mut r).unwrap());
    }
    let tree = SceneTree::from_blocks(&blocks).unwrap();
    let root = tree.get_node(&cid(0, 1)).unwrap();
    assert_eq!(root.label.value, "Root");
    assert_eq!(root.children.items.len(), 1);
}

#[test]
fn crdt_sequence_replaces_same_id() {
    let mut seq: CrdtSequence<u32> = CrdtSequence::new();
    let item = |n: u32, v: u32| CrdtSequenceItem { item_id: cid(0, n), left_id: cid(0, 0), right_id: cid(0, 0), deleted_length: 0, value: v };
    assert!(seq.push(item(1, 10)).is_none());
    assert!(seq.push(item(2, 20)).is_none());
    assert_eq!(seq.push(item(1, 30)).unwrap().value, 10);
    assert_eq!(seq.items.len(), 2);
    assert_eq!(seq.items[0].value, 30);
}

#[test]
fn group_builders() {
    let g = Group::default().node_id(cid(0, 11));
    assert_eq!(g.node_id, cid(0, 11));
    assert!(g.visible.value);
    assert_eq!(g.label.value, "");
    let info = BlockInfo { start_offset: 10, size: 5, min_version: 1, current_version: 1 };
    let r = tagged(vec![0; 20]);
    assert!(info.has_bytes_remaining(&r));
    let _ = Page { layers: Vec::new() };
}

fn item_header(parent: u32, item: u32) -> Vec<u8> {
    let mut payload = id(1, 0, parent);
    payload.extend(id(2, 0, item));
    payload.extend(id(3, 0, 0));
    payload.extend(id(4, 0, 0));
    payload.extend(u32_field(5, 0));
    payload
}

#[test]
fn glyph_range_item() {
    let mut glyph = vec![1u8];
    glyph.extend(u32_field(2, 4));
    glyph.extend(u32_field(3, 2));
    glyph.extend(u32_field(4, 3));
    glyph.extend(subblock(5, string_body("hi")));
    let mut rects = varuint(1);
    for v in [1.0f64, 2.0, 3.0, 4.0] {
        rects.extend(v.to_le_bytes());
    }
    glyph.extend(subblock(6, rects));
    let mut payload = item_header(1, 30);
    payload.extend(subblock(6, glyph));
    let mut r = tagged(block(0x03, 1, payload));
    let b = Block::parse(&mut r).unwrap();
    match &b {
        Block::SceneGlyphItem(g) => {
            let v = g.item.value.as_ref().unwrap();
            assert_eq!((v.start, v.length), (4, 2));
            assert_eq!(v.color, PenColor::Yellow);
            assert_eq!(v.text, "hi");
            assert_eq!(v.rectangles.len(), 1);
            assert_eq!(f64::from_bits(v.rectangles[0].h), 4.0);
        }
        _ => panic!("expected a glyph range"),
    }
    let tree = SceneTree::from_blocks(&vec![b]).unwrap();
    let root = tree.get_node(&cid(0, 1)).unwrap();
    assert!(matches!(&root.children.items[0].value, SceneItem::GlyphRange(g) if g.text == "hi"));
}

#[test]
fn scene_item_without_value() {
    let mut r = tagged(block(0x05, 2, item_header(1, 31)));
    let b = Block::parse(&mut r).unwrap();
    match &b {
        Block::SceneLineItem(l) => assert!(l.item.value.is_none()),
        _ => panic!("expected a line item"),
    }
    let tree = SceneTree::from_blocks(&vec![b]).unwrap();
    assert_eq!(tree.get_node(&cid(0, 1)).unwrap().children.items.len(), 0);
}

fn text_payload(items: Vec<Vec<u8>>) -> Vec<u8> {
    let mut list = varuint(items.len() as u32);
    for it in items {
        list.extend(subblock(0, it));
    }
    let mut text = subblock(1, subblock(1, list));
    text.extend(subblock(2, subblock(1, varuint(0))));
    let mut out = subblock(2, text);
    let mut position = 1.0f64.to_le_bytes().to_vec();
    position.extend(2.0f64.to_le_bytes());
    out.extend(subblock(3, position));
    out.extend(f32_field(4, 3.0));
    out
}

fn text_item(n: u32, value: Option<Vec<u8>>) -> Vec<u8> {
    let mut item = id(2, 1, n);
    item.extend(id(3, 0, 0));
    item.extend(id(4, 0, 0));
    item.extend(u32_field(5, 0));
    if let Some(v) = value {
        item.extend(subblock(6, v));
    }
    item
}

#[test]
fn text_item_kinds() {
    let mut fmt = string_body("");
    fmt.extend(u32_field(2, 7));
    let items = vec![text_item(1, Some(string_body("x"))), text_item(2, Some(fmt)), text_item(3, None), text_item(1, Some(string_body("y")))];
    let mut text = vec![5u8];
    text.extend(text_payload(items));
    let mut payload = item_header(1, 40);
    payload.extend(subblock(6, text));
    let mut r = tagged(block(0x06, 1, payload));
    let b = Block::parse(&mut r).unwrap();
    match &b {
        Block::SceneTextItem(t) => {
            let text = t.item.value.as_ref().unwrap();
            assert_eq!(text.items.items.len(), 3);
            assert!(matches!(&text.items.items[0].value, TextItem::Text(s) if s == "y"));
            assert!(matches!(text.items.items[1].value, TextItem::FormatCode(7)));
            assert!(matches!(&text.items.items[2].value, TextItem::Text(s) if s.is_empty()));
            assert_eq!(f32::from_bits(text.width), 3.0);
        }
        _ => panic!("expected a text item"),
    }
    let tree = SceneTree::from_blocks(&vec![b]).unwrap();
    assert!(matches!(tree.get_node(&cid(0, 1)).unwrap().children.items[0].value, SceneItem::Text(_)));
}

#[test]
fn later_author_replaces_earlier() {
    let mut payload = varuint(2);
    for last in [0x06u8, 0x07u8] {
        let mut u = uuid_bytes();
        u[15] = last;
        let mut entry = varuint(16);
        entry.extend(u);
        entry.extend(1u16.to_le_bytes());
        payload.extend(subblock(0, entry));
    }
    let mut r = tagged(block(0x09, 1, payload));
    match Block::parse(&mut r).unwrap() {
        Block::AuthorsIds(a) => {
            assert_eq!(a.authors.len(), 1);
            assert_eq!(a.authors[&1], "495ba59f-c943-2b5c-b455-3682f6948907");
        }
        _ => panic!("expected authors"),
    }
}

#[test]
fn migration_info_trailing_byte() {
    let mut payload = id(1, 1, 1);
    payload.extend(u8_field(2, 0));
    payload.push(9);
    let mut r = tagged(block(0x00, 1, payload));
    match Block::parse(&mut r).unwrap() {
        Block::MigrationInfo(m) => assert!(!m.is_device),
        _ => panic!("expected migration info"),
    }
}

#[test]
fn tree_node_with_anchor() {
    let mut payload = id(1, 0, 11);
    payload.extend(lww_string(2, (0, 12), "Layer 1"));
    payload.extend(lww_bool(3, (0, 0), true));
    let mut anchor = id(1, 0, 2);
    anchor.extend(id(2, 0, 0xfffe));
    payload.extend(subblock(7, anchor));
    let mut kind = id(1, 0, 2);
    kind.extend(u8_field(2, 1));
    payload.extend(subblock(8, kind));
    for index in [9u32, 10] {
        let mut v = id(1, 0, 2);
        v.extend(f32_field(2, 0.5));
        payload.extend(subblock(index, v));
    }
    let mut r = tagged(block(0x02, 1, payload));
    match Block::parse(&mut r).unwrap() {
        Block::TreeNode(n) => {
            assert_eq!(n.group.anchor_id.as_ref().unwrap().value, cid(0, 0xfffe));
            assert_eq!(n.group.anchor_type.as_ref().unwrap().value, 1);
            assert_eq!(f32::from_bits(n.group.anchor_origin_x.as_ref().unwrap().value), 0.5);
        }
        _ => panic!("expected a tree node"),
    }
}

#[test]
fn error_description() {
    let mut e = ParseError::unsupported("Unknown version");
    e.context = String::from("ctx");
    assert_eq!(e.describe(), "Error while parsing remarkable file Unknown version. \nctx");
}
