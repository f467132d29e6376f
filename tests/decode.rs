use ml::bits::{RawVec2, RawVec3, RawVec4};
use ml::geometry::{Bounds3, Byte4, Normal, PackedVec2, PackedVec3, Position, TexCoord};
use ml::mesh::MeshData;
use ml::reader::{read_text, DecodeError};

fn f(v: f32) -> [u8; 4] {
    v.to_le_bytes()
}

fn section(name: &str, body: &[u8]) -> Vec<u8> {
    let mut out = vec![name.len() as u8];
    out.extend_from_slice(name.as_bytes());
    out.extend_from_slice(&(body.len() as u32).to_le_bytes());
    out.extend_from_slice(body);
    out
}

fn floats(vals: &[f32]) -> Vec<u8> {
    let mut out = vec![];
    for v in vals {
        out.extend_from_slice(&f(*v));
    }
    out
}

fn counted(n: u32, data: &[u8]) -> Vec<u8> {
    let mut out = n.to_le_bytes().to_vec();
    out.extend_from_slice(data);
    out
}

fn end() -> Vec<u8> {
    section("END", &[])
}

fn bone_record(name: &str, id: u8, pos: [f32; 3]) -> Vec<u8> {
    let mut out = vec![name.len() as u8];
    out.extend_from_slice(name.as_bytes());
    out.push(id);
    out.extend(floats(&pos));
    out.extend(floats(&[0.0, 0.0, 0.0, 1.0]));
    out.extend(floats(&[1.0, 0.0, 0.0, 0.0, 1.0, 0.0, 0.0, 0.0, 1.0, 0.0, 0.0, 0.0]));
    out
}

fn v3(a: f32, b: f32, c: f32) -> RawVec3 {
    RawVec3 { x: a.to_bits(), y: b.to_bits(), z: c.to_bits() }
}

#[test]
fn minimal_layout_streams() {
    let mut b = vec![];
    b.extend_from_slice(&1u16.to_le_bytes());
    b.extend(floats(&[1.0, 2.0, 3.0]));
    b.extend_from_slice(&1u16.to_le_bytes());
    b.extend(floats(&[0.0, 1.0, 0.0]));
    b.extend_from_slice(&3u16.to_le_bytes());
    for i in [0u16, 1, 2] {
        b.extend_from_slice(&i.to_le_bytes());
    }
    b.extend_from_slice(&1u16.to_le_bytes());
    b.extend(floats(&[0.5, 0.25]));
    let m = MeshData::from_mm_bytes(&b).unwrap();
    assert_eq!(m.vertex, vec![Position::Plain(v3(1.0, 2.0, 3.0))]);
    assert_eq!(m.normal, vec![Normal::Plain(v3(0.0, 1.0, 0.0))]);
    assert_eq!(m.index, vec![0, 1, 2]);
    assert_eq!(m.uv0, vec![TexCoord::Plain(RawVec2 { x: 0.5f32.to_bits(), y: 0.25f32.to_bits() })]);
    assert!(m.bone_list.is_empty());
}

#[test]
fn minimal_layout_truncated() {
    let mut b = vec![];
    b.extend_from_slice(&2u16.to_le_bytes());
    b.extend(floats(&[1.0, 2.0, 3.0]));
    assert_eq!(MeshData::from_mm_bytes(&b).unwrap_err(), DecodeError::MalformedInput);
    assert_eq!(MeshData::from_mm_bytes(&[]).unwrap_err(), DecodeError::MalformedInput);
}

#[test]
fn chunked_full_precision_streams() {
    let mut b = vec![];
    b.extend(section("VERTEX", &counted(2, &floats(&[1.0, 2.0, 3.0, -1.0, -2.0, -3.0]))));
    b.extend(section("NORMAL", &counted(1, &floats(&[0.0, 0.0, 1.0]))));
    b.extend(section("UV", &counted(1, &floats(&[0.75, 0.125]))));
    let mut idx = vec![];
    for i in [0u32, 1, 70000] {
        idx.extend_from_slice(&i.to_le_bytes());
    }
    b.extend(section("INDEX", &counted(3, &idx)));
    b.extend(section("BONE_WEIGHT", &counted(1, &[255, 0, 0, 0])));
    b.extend(section("BONE_INDEX", &counted(1, &[3, 1, 0, 0])));
    b.extend(end());
    let m = MeshData::from_mm2_bytes(&b).unwrap();
    assert_eq!(m.vertex, vec![Position::Plain(v3(1.0, 2.0, 3.0)), Position::Plain(v3(-1.0, -2.0, -3.0))]);
    assert_eq!(m.normal, vec![Normal::Plain(v3(0.0, 0.0, 1.0))]);
    assert_eq!(m.uv0, vec![TexCoord::Plain(RawVec2 { x: 0.75f32.to_bits(), y: 0.125f32.to_bits() })]);
    assert_eq!(m.index, vec![0, 1, 70000]);
    assert_eq!(m.bone_weight, vec![Byte4 { a: 255, b: 0, c: 0, d: 0 }]);
    assert_eq!(m.bone_index, vec![Byte4 { a: 3, b: 1, c: 0, d: 0 }]);
    assert_eq!(m.bone_list.len(), 255);
    assert!(m.bone_list.iter().all(|bone| !bone.is_changed && bone.children.is_empty()));
}

#[test]
fn chunked_packed_streams() {
    let mut b = vec![];
    b.extend(section("INFO", &[1, 2, 2, 2, 2]));
    let mut vb = floats(&[-1.0, 1.0, 0.0, 10.0, 5.0, 6.0]);
    for k in [32767i16, -32767, 0] {
        vb.extend_from_slice(&k.to_le_bytes());
    }
    b.extend(section("VERTEX", &counted(1, &vb)));
    let mut nb = vec![];
    for k in [0i16, 0, 32767] {
        nb.extend_from_slice(&k.to_le_bytes());
    }
    b.extend(section("NORMAL", &counted(1, &nb)));
    let mut ub = vec![];
    for k in [65535u16, 0] {
        ub.extend_from_slice(&k.to_le_bytes());
    }
    b.extend(section("UV", &counted(1, &ub)));
    let mut ib = vec![];
    for k in [7u16, 65535] {
        ib.extend_from_slice(&k.to_le_bytes());
    }
    b.extend(section("INDEX", &counted(2, &ib)));
    b.extend(end());
    let m = MeshData::from_mm2_bytes(&b).unwrap();
    let bounds = Bounds3 {
        min_x: (-1.0f32).to_bits(),
        max_x: 1.0f32.to_bits(),
        min_y: 0.0f32.to_bits(),
        max_y: 10.0f32.to_bits(),
        min_z: 5.0f32.to_bits(),
        max_z: 6.0f32.to_bits(),
    };
    assert_eq!(m.vertex, vec![Position::Packed(PackedVec3 { x: 32767, y: -32767, z: 0 }, bounds)]);
    assert_eq!(m.normal, vec![Normal::Packed(PackedVec3 { x: 0, y: 0, z: 32767 })]);
    assert_eq!(m.uv0, vec![TexCoord::Packed(PackedVec2 { x: 65535, y: 0 })]);
    assert_eq!(m.index, vec![7, 65535]);
}

#[test]
fn unknown_section_is_skipped_by_its_size() {
    let vertex = section("VERTEX", &counted(1, &floats(&[4.0, 5.0, 6.0])));
    let mut plain = vertex.clone();
    plain.extend(end());
    let mut with_junk = section("JUNK", &[9, 9, 9, 9, 9, 9, 9]);
    with_junk.extend(vertex.clone());
    with_junk.extend(section("COLOR", &[1, 2, 3]));
    with_junk.extend(end());
    let a = MeshData::from_mm2_bytes(&plain).unwrap();
    let b = MeshData::from_mm2_bytes(&with_junk).unwrap();
    assert_eq!(a.vertex, b.vertex);
    assert_eq!(b.vertex, vec![Position::Plain(v3(4.0, 5.0, 6.0))]);
    assert!(b.normal.is_empty() && b.index.is_empty() && b.uv0.is_empty());
}

#[test]
fn unknown_section_past_the_end_is_malformed() {
    let mut bad = vec![4];
    bad.extend_from_slice(b"JUNK");
    bad.extend_from_slice(&100u32.to_le_bytes());
    bad.extend(end());
    assert_eq!(MeshData::from_mm2_bytes(&bad).unwrap_err(), DecodeError::MalformedInput);
}

#[test]
fn missing_end_is_malformed() {
    let b = section("VERTEX", &counted(0, &[]));
    assert_eq!(MeshData::from_mm2_bytes(&b).unwrap_err(), DecodeError::MalformedInput);
    assert_eq!(MeshData::from_mm2_bytes(&[]).unwrap_err(), DecodeError::MalformedInput);
}

#[test]
fn truncated_stream_is_malformed() {
    let mut b = section("VERTEX", &counted(2, &floats(&[1.0, 2.0, 3.0])));
    b.extend(end());
    assert_eq!(MeshData::from_mm2_bytes(&b).unwrap_err(), DecodeError::MalformedInput);
}

#[test]
fn invalid_utf8_name_is_malformed() {
    let mut b = vec![2, 0xFF, 0xFE];
    b.extend_from_slice(&0u32.to_le_bytes());
    b.extend(end());
    assert_eq!(MeshData::from_mm2_bytes(&b).unwrap_err(), DecodeError::MalformedInput);
}

#[test]
fn bone_section_builds_table_and_hierarchy() {
    let mut body = vec![3u8];
    body.extend(bone_record("Hip", 0, [0.0, 1.0, 0.0]));
    body.extend(bone_record("Spine", 1, [0.0, 2.0, 0.0]));
    body.extend(bone_record("Leg", 5, [1.0, 0.0, 0.0]));
    // root 0 with children 1 and 5, each without children
    body.extend_from_slice(&[0, 2, 1, 0, 5, 0]);
    let mut b = section("BONE", &body);
    b.extend(end());
    let m = MeshData::from_mm2_bytes(&b).unwrap();
    assert_eq!(m.bone_root_id, 0);
    assert_eq!(m.bone_list.len(), 255);
    assert_eq!(m.bone_list[0].name, "Hip");
    assert_eq!(m.bone_list[0].children, vec![1, 5]);
    assert_eq!(m.bone_list[1].name, "Spine");
    assert!(m.bone_list[1].children.is_empty());
    assert_eq!(m.bone_list[5].id, 5);
    assert!(m.bone_list[5].is_changed);
    assert_eq!(m.bone_list[5].position, v3(1.0, 0.0, 0.0));
    assert_eq!(m.bone_list[5].rotation, RawVec4 { x: 0, y: 0, z: 0, w: 1.0f32.to_bits() });
    assert_eq!(m.bone_list[5].inverse_bind_matrix.r1, v3(0.0, 1.0, 0.0));
    assert!(!m.bone_list[2].is_changed);
    assert!(m.bone_list[2].name.is_empty());
    assert_eq!(m.bone_id("Leg"), Some(5));
    assert_eq!(m.bone_id("Hip"), Some(0));
    assert_eq!(m.bone_id("Tail"), None);
}

#[test]
fn bone_id_out_of_range() {
    let mut body = vec![1u8];
    body.extend(bone_record("Bad", 255, [0.0, 0.0, 0.0]));
    body.extend_from_slice(&[0, 0]);
    let mut b = section("BONE", &body);
    b.extend(end());
    assert_eq!(MeshData::from_mm2_bytes(&b).unwrap_err(), DecodeError::OutOfRangeId);
}

#[test]
fn hierarchy_id_out_of_range() {
    let mut body = vec![1u8];
    body.extend(bone_record("Hip", 0, [0.0, 0.0, 0.0]));
    body.extend_from_slice(&[0, 1, 255, 0]);
    let mut b = section("BONE", &body);
    b.extend(end());
    assert_eq!(MeshData::from_mm2_bytes(&b).unwrap_err(), DecodeError::OutOfRangeId);
}

#[test]
fn truncated_hierarchy_is_malformed() {
    let mut body = vec![1u8];
    body.extend(bone_record("Hip", 0, [0.0, 0.0, 0.0]));
    body.extend_from_slice(&[0, 2, 1, 0]);
    let mut b = section("BONE", &body);
    b.extend(end());
    assert_eq!(MeshData::from_mm2_bytes(&b).unwrap_err(), DecodeError::MalformedInput);
}

#[test]
fn text_reads_length_prefixed_utf8() {
    let b = [3u8, b'H', b'i', b'p', 7];
    let (s, next) = read_text(&b, 0).unwrap();
    assert_eq!(s, "Hip");
    assert_eq!(next, 4);
    assert!(read_text(&[5u8, b'a'], 0).is_none());
    assert!(read_text(&[1u8, 0xFF], 0).is_none());
}
