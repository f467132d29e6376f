use ml::animation::{find_bracket, MeshAnimation, MeshAnimationSequence, KIND_ROTATION, KIND_TRANSLATION};
use ml::bits::{RawVec3, RawVec4};
use ml::mesh::MeshData;
use ml::reader::DecodeError;
use ml::skeleton::BoneVisit;

fn f(v: f32) -> [u8; 4] {
    v.to_le_bytes()
}

fn bits(vals: &[f32]) -> Vec<u32> {
    vals.iter().map(|v| v.to_bits()).collect()
}

fn text(out: &mut Vec<u8>, s: &str) {
    out.push(s.len() as u8);
    out.extend_from_slice(s.as_bytes());
}

fn bone_record(out: &mut Vec<u8>, name: &str, id: u8) {
    text(out, name);
    out.push(id);
    for v in [0.0f32, 0.0, 0.0, 0.0, 0.0, 0.0, 1.0] {
        out.extend_from_slice(&f(v));
    }
    for v in [1.0f32, 0.0, 0.0, 0.0, 1.0, 0.0, 0.0, 0.0, 1.0, 0.0, 0.0, 0.0] {
        out.extend_from_slice(&f(v));
    }
}

/// A skeleton: 0 -> (1 -> (3), 2).
fn skeleton() -> MeshData {
    let mut body = vec![4u8];
    bone_record(&mut body, "Root", 0);
    bone_record(&mut body, "Arm", 1);
    bone_record(&mut body, "Leg", 2);
    bone_record(&mut body, "Hand", 3);
    body.extend_from_slice(&[0, 2, 1, 1, 3, 0, 2, 0]);
    let mut b = vec![4u8];
    b.extend_from_slice(b"BONE");
    b.extend_from_slice(&(body.len() as u32).to_le_bytes());
    b.extend(body);
    b.push(3);
    b.extend_from_slice(b"END");
    b.extend_from_slice(&0u32.to_le_bytes());
    MeshData::from_mm2_bytes(&b).unwrap()
}

fn clip_bytes() -> Vec<u8> {
    let mut b = vec![1u8, 2];
    b.push(7);
    text(&mut b, "Arm");
    b.push(9);
    text(&mut b, "Hand");
    text(&mut b, "wave");
    b.extend_from_slice(&2u32.to_le_bytes());
    // translation channel on bone 7 ("Arm")
    b.push(7);
    b.push(1);
    b.extend_from_slice(&2u32.to_le_bytes());
    b.extend_from_slice(&f(0.0));
    b.extend_from_slice(&f(1.0));
    b.extend_from_slice(&2u32.to_le_bytes());
    for v in [0.0f32, 0.0, 0.0, 10.0, 0.0, 0.0] {
        b.extend_from_slice(&f(v));
    }
    // rotation channel on bone 9 ("Hand")
    b.push(9);
    b.push(2);
    b.extend_from_slice(&1u32.to_le_bytes());
    b.extend_from_slice(&f(2.5));
    b.extend_from_slice(&1u32.to_le_bytes());
    for v in [0.0f32, 0.0, 0.0, 1.0] {
        b.extend_from_slice(&f(v));
    }
    b
}

#[test]
fn bracket_between_keys() {
    let times = bits(&[0.0, 1.0, 2.0]);
    assert_eq!(find_bracket(&times, 1.5f32.to_bits()), (1, 2));
    assert_eq!(find_bracket(&times, 0.0f32.to_bits()), (0, 1));
    assert_eq!(find_bracket(&times, 1.0f32.to_bits()), (1, 2));
}

#[test]
fn bracket_outside_keys_falls_back_to_first() {
    let times = bits(&[0.0, 1.0, 2.0]);
    assert_eq!(find_bracket(&times, 2.0f32.to_bits()), (0, 0));
    assert_eq!(find_bracket(&times, (-0.5f32).to_bits()), (0, 0));
    assert_eq!(find_bracket(&times, f32::NAN.to_bits()), (0, 0));
    assert_eq!(find_bracket(&bits(&[1.0]), 1.0f32.to_bits()), (0, 0));
    assert_eq!(find_bracket(&vec![], 1.0f32.to_bits()), (0, 0));
}

#[test]
fn calculate_frames_sets_bracket() {
    let mut s = MeshAnimationSequence::new();
    s.time = bits(&[0.0, 1.0, 2.0]);
    s.calculate_frames(1.5f32.to_bits());
    assert_eq!((s.prev_frame, s.next_frame), (1, 2));
    s.calculate_frames(3.0f32.to_bits());
    assert_eq!((s.prev_frame, s.next_frame), (0, 0));
}

#[test]
fn clip_decodes() {
    let a = MeshAnimation::from_bytes(&clip_bytes()).unwrap();
    assert_eq!(a.name, "wave");
    assert_eq!(a.duration, 2.5f32.to_bits());
    assert_eq!(a.current_time, 0);
    assert_eq!(a.sequence_list.len(), 2);
    let t = &a.sequence_list[0];
    assert_eq!(t.key, "Arm");
    assert_eq!(t.kind, KIND_TRANSLATION);
    assert_eq!(t.time, bits(&[0.0, 1.0]));
    assert_eq!(t.value[1], RawVec4 { x: 10.0f32.to_bits(), y: 0, z: 0, w: 0 });
    let r = &a.sequence_list[1];
    assert_eq!(r.key, "Hand");
    assert_eq!(r.kind, KIND_ROTATION);
    assert_eq!(r.value, vec![RawVec4 { x: 0, y: 0, z: 0, w: 1.0f32.to_bits() }]);
}

#[test]
fn clip_with_unmapped_bone_is_malformed() {
    let mut b = clip_bytes();
    let at = 1 + 1 + 1 + 4 + 1 + 5 + 5 + 4;
    assert_eq!(b[at], 7);
    b[at] = 8;
    assert_eq!(MeshAnimation::from_bytes(&b).unwrap_err(), DecodeError::MalformedInput);
}

#[test]
fn clip_truncated_is_malformed() {
    let b = clip_bytes();
    assert_eq!(MeshAnimation::from_bytes(&b[..b.len() - 1]).unwrap_err(), DecodeError::MalformedInput);
    assert_eq!(MeshAnimation::from_bytes(&[1]).unwrap_err(), DecodeError::MalformedInput);
}

#[test]
fn placeholder_channel_skips_four_bytes_per_value() {
    let mut b = vec![1u8, 1, 4];
    text(&mut b, "Arm");
    text(&mut b, "c");
    b.extend_from_slice(&1u32.to_le_bytes());
    b.push(4);
    b.push(0);
    b.extend_from_slice(&0u32.to_le_bytes());
    b.extend_from_slice(&2u32.to_le_bytes());
    b.extend_from_slice(&[1, 2, 3, 4, 5, 6, 7, 8]);
    let a = MeshAnimation::from_bytes(&b).unwrap();
    assert_eq!(a.sequence_list[0].value, vec![RawVec4 { x: 0, y: 0, z: 0, w: 0 }; 2]);
    assert_eq!(a.duration, 0);
}

#[test]
fn seek_rebrackets_every_channel() {
    let mut a = MeshAnimation::from_bytes(&clip_bytes()).unwrap();
    a.seek(0.5f32.to_bits());
    assert_eq!(a.current_time, 0.5f32.to_bits());
    assert_eq!((a.sequence_list[0].prev_frame, a.sequence_list[0].next_frame), (0, 1));
    assert_eq!((a.sequence_list[1].prev_frame, a.sequence_list[1].next_frame), (0, 0));
}

#[test]
fn visit_order_is_depth_first() {
    let m = skeleton();
    let plan = m.bone_visit_order(m.bone_root_id);
    assert_eq!(
        plan,
        vec![
            BoneVisit { bone: 0, parent: None },
            BoneVisit { bone: 1, parent: Some(0) },
            BoneVisit { bone: 3, parent: Some(1) },
            BoneVisit { bone: 2, parent: Some(0) },
        ]
    );
    assert_eq!(m.bone_visit_order(1), vec![BoneVisit { bone: 1, parent: None }, BoneVisit { bone: 3, parent: Some(1) }]);
    assert!(m.bone_visit_order(300).is_empty());
}

#[test]
fn visit_order_twice_is_identical() {
    let m = skeleton();
    assert_eq!(m.bone_visit_order(0), m.bone_visit_order(0));
}

#[test]
fn visit_order_stops_on_cycles() {
    let mut m = skeleton();
    m.bone_list[3].children = vec![0, 3, 254, 9999];
    let plan = m.bone_visit_order(0);
    assert_eq!(plan.len(), 5);
    assert_eq!(plan[3], BoneVisit { bone: 254, parent: Some(3) });
}

#[test]
fn set_bone_rotation_by_name() {
    let mut m = skeleton();
    let q = RawVec4 { x: 1, y: 2, z: 3, w: 4 };
    m.bone_list[2].is_changed = false;
    m.set_bone_rotation("Leg", q);
    assert_eq!(m.bone_list[2].local_rotation, q);
    assert!(m.bone_list[2].is_changed);
    assert_eq!(m.bone_list[1].local_rotation, RawVec4 { x: 0, y: 0, z: 0, w: 1.0f32.to_bits() });
}

#[test]
fn unknown_bone_name_changes_nothing() {
    let mut m = skeleton();
    let before: Vec<(RawVec3, RawVec4, bool)> =
        m.bone_list.iter().map(|b| (b.local_position, b.local_rotation, b.is_changed)).collect();
    m.set_bone_rotation("Tail", RawVec4 { x: 1, y: 1, z: 1, w: 1 });
    m.apply_channel_value("Tail", KIND_TRANSLATION, RawVec4 { x: 5, y: 5, z: 5, w: 5 });
    m.apply_channel_value("Tail", KIND_ROTATION, RawVec4 { x: 5, y: 5, z: 5, w: 5 });
    let after: Vec<(RawVec3, RawVec4, bool)> =
        m.bone_list.iter().map(|b| (b.local_position, b.local_rotation, b.is_changed)).collect();
    assert_eq!(before, after);
}

#[test]
fn channel_value_goes_to_runtime_fields() {
    let mut m = skeleton();
    m.bone_list[1].is_changed = false;
    let v = RawVec4 { x: 5.0f32.to_bits(), y: 0, z: 0, w: 0 };
    m.apply_channel_value("Arm", KIND_TRANSLATION, v);
    assert_eq!(m.bone_list[1].local_position, RawVec3 { x: 5.0f32.to_bits(), y: 0, z: 0 });
    assert!(m.bone_list[1].is_changed);
    let q = RawVec4 { x: 9, y: 8, z: 7, w: 6 };
    m.apply_channel_value("Hand", KIND_ROTATION, q);
    assert_eq!(m.bone_list[3].local_rotation, q);
    m.bone_list[2].is_changed = false;
    m.apply_channel_value("Leg", 3, q);
    assert!(!m.bone_list[2].is_changed);
    assert_eq!(m.bone_list[2].local_position, RawVec3 { x: 0, y: 0, z: 0 });
}

#[test]
fn animation_lookup_by_name() {
    let mut m = skeleton();
    assert_eq!(m.animation_index("wave"), None);
    m.animation_list.push(MeshAnimation::new());
    m.animation_list.push(MeshAnimation::from_bytes(&clip_bytes()).unwrap());
    m.animation_list.push(MeshAnimation::from_bytes(&clip_bytes()).unwrap());
    assert_eq!(m.animation_index("wave"), Some(1));
    assert_eq!(m.animation_index(""), Some(0));
    assert_eq!(m.animation_index("run"), None);
}
