use vstd::prelude::*;
use crate::animation::{ClipModel, KIND_ROTATION, KIND_TRANSLATION, MeshAnimation};
use crate::bits::{RawVec3, RawVec4};
use crate::bone::{BindRows, Bone, BoneModel, default_bone};
use crate::geometry::{
    Bounds3, Byte4, Normal, PackedVec3, Position, TexCoord, bounds_at, byte4_at, packed2_at,
    packed3_at, packed3_bytes, vec2_at, vec3_at, lemma_packed_keys_round_trip,
};
use crate::hierarchy::{BONE_CAPACITY, parse_node, rows};
use crate::number::{u16_at, u16_at_offset, u32_at};
use crate::reader::{DecodeError, text_at, word_at, read_text, read_word};
use crate::geometry::{
    read_bounds, read_byte4s, read_narrow_indices, read_packed_normals, read_packed_positions,
    read_packed_uvs, read_plain_normals, read_plain_positions, read_plain_uvs, read_wide_indices,
    read_vec3, word,
};
use crate::hierarchy::read_node;
use crate::text::same_text;

verus! {

/// Which attributes are stored packed into 16 bits (precision 2) rather than as 32-bit
/// values (precision 4).
#[derive(Copy, Clone, Debug, PartialEq, Eq, Structural)]
pub struct Precision {
    pub vertex: bool,
    pub uv: bool,
    pub index: bool,
    pub normal: bool,
}

/// A decoded mesh: geometry streams, the bone table with its name lookup, and clips.
#[derive(Clone, Debug)]
pub struct MeshData {
    pub id: u32,
    pub vertex: Vec<Position>,
    pub index: Vec<u32>,
    pub normal: Vec<Normal>,
    pub uv0: Vec<TexCoord>,
    pub bone_weight: Vec<Byte4>,
    pub bone_index: Vec<Byte4>,
    pub bone_list: Vec<Bone>,
    pub bone_root_id: usize,
    pub bone_names: Vec<String>,
    pub bone_ids: Vec<u32>,
    pub animation_list: Vec<MeshAnimation>,
}

/// What a mesh holds. `names` and `ids` are the name lookup in the order its entries were
/// made; a later entry for a name replaces an earlier one.
pub ghost struct MeshModel {
    pub id: u32,
    pub vertex: Seq<Position>,
    pub index: Seq<u32>,
    pub normal: Seq<Normal>,
    pub uv0: Seq<TexCoord>,
    pub bone_weight: Seq<Byte4>,
    pub bone_index: Seq<Byte4>,
    pub bones: Seq<BoneModel>,
    pub root: usize,
    pub names: Seq<Seq<char>>,
    pub ids: Seq<u32>,
    pub animations: Seq<ClipModel>,
}

impl View for MeshData {
    type V = MeshModel;

    open spec fn view(&self) -> MeshModel {
        MeshModel {
            id: self.id,
            vertex: self.vertex@,
            index: self.index@,
            normal: self.normal@,
            uv0: self.uv0@,
            bone_weight: self.bone_weight@,
            bone_index: self.bone_index@,
            bones: self.bone_list@.map_values(|b: Bone| b@),
            root: self.bone_root_id,
            names: self.bone_names@.map_values(|s: String| s@),
            ids: self.bone_ids@,
            animations: self.animation_list@.map_values(|a: MeshAnimation| a@),
        }
    }
}

/// The lookup is consistent: one id per name entry, each naming a slot of the table.
pub open spec fn lookup_ok(m: MeshModel) -> bool {
    &&& m.names.len() == m.ids.len()
    &&& forall|k: int| 0 <= k < m.ids.len() ==> (#[trigger] m.ids[k] as int) < m.bones.len()
}

/// The id that the lookup gives `name`: that of its latest entry.
pub open spec fn name_lookup(names: Seq<Seq<char>>, ids: Seq<u32>, name: Seq<char>) -> Option<u32>
    decreases names.len(),
{
    if names.len() == 0 || ids.len() == 0 {
        None
    } else if names.last() == name {
        Some(ids.last())
    } else {
        name_lookup(names.drop_last(), ids.drop_last(), name)
    }
}

/// A mesh with nothing decoded yet: no streams, no bone slots, no clips.
pub open spec fn empty_mesh() -> MeshModel {
    MeshModel {
        id: 0,
        vertex: seq![],
        index: seq![],
        normal: seq![],
        uv0: seq![],
        bone_weight: seq![],
        bone_index: seq![],
        bones: seq![],
        root: 0,
        names: seq![],
        ids: seq![],
        animations: seq![],
    }
}

/// The mesh that a chunked decode starts from: a full table of unused bone slots.
pub open spec fn initial_mesh() -> MeshModel {
    MeshModel { bones: Seq::new(BONE_CAPACITY as nat, |i: int| default_bone()), ..empty_mesh() }
}

/// Every attribute at full precision.
pub open spec fn default_precision() -> Precision {
    Precision { vertex: false, uv: false, index: false, normal: false }
}

/// The four words of a quaternion stored at `off`.
pub open spec fn vec4_at(b: Seq<u8>, off: int) -> RawVec4 {
    RawVec4 { x: u32_at(b, off), y: u32_at(b, off + 4), z: u32_at(b, off + 8), w: u32_at(b, off + 12) }
}

/// The four three-column rows of an inverse-bind matrix stored at `off`.
pub open spec fn rows_at(b: Seq<u8>, off: int) -> BindRows {
    BindRows {
        r0: vec3_at(b, off),
        r1: vec3_at(b, off + 12),
        r2: vec3_at(b, off + 24),
        r3: vec3_at(b, off + 36),
    }
}

/// How many bytes a bone record takes after its name: id, position, rotation, rows.
pub const BONE_RECORD_TAIL: usize = 77;

/// A bone as a record declares it: the unused slot with the record's values, changed.
pub open spec fn declared_bone(name: Seq<char>, id: u8, position: RawVec3, rotation: RawVec4, ibm: BindRows) -> BoneModel {
    BoneModel {
        name,
        id: id as u32,
        is_changed: true,
        position,
        rotation,
        inverse_bind_matrix: ibm,
        ..default_bone()
    }
}

/// One bone record at `off` (name, id byte, position, rotation, matrix rows), entered
/// into the table at its id and into the lookup; with the offset after it.
pub open spec fn bone_record(b: Seq<u8>, off: int, m: MeshModel) -> Result<(MeshModel, int), DecodeError> {
    match text_at(b, off) {
        Some((name, o)) => if o + BONE_RECORD_TAIL <= b.len() {
            let id = b[o];
            if id as int >= BONE_CAPACITY {
                Err(DecodeError::OutOfRangeId)
            } else {
                let bone = declared_bone(name, id, vec3_at(b, o + 1), vec4_at(b, o + 13), rows_at(b, o + 29));
                Ok((MeshModel {
                    bones: m.bones.update(id as int, bone),
                    names: m.names.push(name),
                    ids: m.ids.push(id as u32),
                    ..m
                }, o + BONE_RECORD_TAIL))
            }
        } else {
            Err(DecodeError::MalformedInput)
        },
        None => Err(DecodeError::MalformedInput),
    }
}

/// `n` bone records from `off`.
pub open spec fn bone_records(b: Seq<u8>, off: int, n: nat, m: MeshModel) -> Result<(MeshModel, int), DecodeError>
    decreases n,
{
    if n == 0 {
        Ok((m, off))
    } else {
        match bone_record(b, off, m) {
            Ok((m2, o)) => bone_records(b, o, (n - 1) as nat, m2),
            Err(e) => Err(e),
        }
    }
}

/// Child lists with nothing in them, one per slot.
pub open spec fn no_children() -> Seq<Seq<u32>> {
    Seq::new(BONE_CAPACITY as nat, |i: int| Seq::<u32>::empty())
}

/// The table with each slot's children set from `adj`: a slot that a record declared
/// (its id is its index) gets its list, any other slot none.
pub open spec fn with_children(bones: Seq<BoneModel>, adj: Seq<Seq<u32>>) -> Seq<BoneModel> {
    Seq::new(
        bones.len(),
        |i: int|
            BoneModel {
                children: if bones[i].id as int == i {
                    adj[i]
                } else {
                    Seq::empty()
                },
                ..bones[i]
            },
    )
}

/// A `BONE` section body at `off`: a count byte, the records, then the hierarchy whose
/// first byte is the root id.
pub open spec fn bone_section(b: Seq<u8>, off: int, m: MeshModel) -> Result<(MeshModel, int), DecodeError> {
    if 0 <= off < b.len() {
        match bone_records(b, off + 1, b[off] as nat, m) {
            Ok((m2, o)) => if 0 <= o < b.len() {
                match parse_node(b, o, no_children()) {
                    Ok((o2, _, adj)) => Ok((MeshModel {
                        bones: with_children(m2.bones, adj),
                        root: b[o] as usize,
                        ..m2
                    }, o2)),
                    Err(e) => Err(e),
                }
            } else {
                Err(DecodeError::MalformedInput)
            },
            Err(e) => Err(e),
        }
    } else {
        Err(DecodeError::MalformedInput)
    }
}

/// `n` entries of width `w` from `off`, if the bytes hold them.
pub open spec fn fits(b: Seq<u8>, off: int, n: int, w: int) -> bool {
    0 <= off && off + w * n <= b.len()
}

/// A geometry section body at `off` for the stream named `name`: an entry count, then
/// the entries in the attribute's precision. `None` for names of other sections.
pub open spec fn stream_section(b: Seq<u8>, off: int, name: Seq<char>, m: MeshModel, p: Precision) -> Option<
    Result<(MeshModel, int), DecodeError>,
> {
    let bad = Err(DecodeError::MalformedInput);
    match word_at(b, off) {
        None => if name == "VERTEX"@ || name == "NORMAL"@ || name == "UV"@ || name == "INDEX"@
            || name == "BONE_WEIGHT"@ || name == "BONE_INDEX"@ {
            Some(bad)
        } else {
            None
        },
        Some((n, o)) => {
            let n = n as int;
            if name == "VERTEX"@ {
                Some(if p.vertex {
                    if fits(b, o + 24, n, 6) {
                        let bounds = bounds_at(b, o);
                        Ok((MeshModel {
                            vertex: m.vertex + Seq::new(n as nat, |k: int| Position::Packed(packed3_at(b, o + 24 + 6 * k), bounds)),
                            ..m
                        }, o + 24 + 6 * n))
                    } else {
                        bad
                    }
                } else if fits(b, o, n, 12) {
                    Ok((MeshModel {
                        vertex: m.vertex + Seq::new(n as nat, |k: int| Position::Plain(vec3_at(b, o + 12 * k))),
                        ..m
                    }, o + 12 * n))
                } else {
                    bad
                })
            } else if name == "NORMAL"@ {
                Some(if p.normal {
                    if fits(b, o, n, 6) {
                        Ok((MeshModel {
                            normal: m.normal + Seq::new(n as nat, |k: int| Normal::Packed(packed3_at(b, o + 6 * k))),
                            ..m
                        }, o + 6 * n))
                    } else {
                        bad
                    }
                } else if fits(b, o, n, 12) {
                    Ok((MeshModel {
                        normal: m.normal + Seq::new(n as nat, |k: int| Normal::Plain(vec3_at(b, o + 12 * k))),
                        ..m
                    }, o + 12 * n))
                } else {
                    bad
                })
            } else if name == "UV"@ {
                Some(if p.uv {
                    if fits(b, o, n, 4) {
                        Ok((MeshModel {
                            uv0: m.uv0 + Seq::new(n as nat, |k: int| TexCoord::Packed(packed2_at(b, o + 4 * k))),
                            ..m
                        }, o + 4 * n))
                    } else {
                        bad
                    }
                } else if fits(b, o, n, 8) {
                    Ok((MeshModel {
                        uv0: m.uv0 + Seq::new(n as nat, |k: int| TexCoord::Plain(vec2_at(b, o + 8 * k))),
                        ..m
                    }, o + 8 * n))
                } else {
                    bad
                })
            } else if name == "INDEX"@ {
                Some(if p.index {
                    if fits(b, o, n, 2) {
                        Ok((MeshModel {
                            index: m.index + Seq::new(n as nat, |k: int| crate::number::u16_at(b, o + 2 * k) as u32),
                            ..m
                        }, o + 2 * n))
                    } else {
                        bad
                    }
                } else if fits(b, o, n, 4) {
                    Ok((MeshModel { index: m.index + Seq::new(n as nat, |k: int| u32_at(b, o + 4 * k)), ..m }, o + 4 * n))
                } else {
                    bad
                })
            } else if name == "BONE_WEIGHT"@ {
                Some(if fits(b, o, n, 4) {
                    Ok((MeshModel {
                        bone_weight: m.bone_weight + Seq::new(n as nat, |k: int| byte4_at(b, o + 4 * k)),
                        ..m
                    }, o + 4 * n))
                } else {
                    bad
                })
            } else if name == "BONE_INDEX"@ {
                Some(if fits(b, o, n, 4) {
                    Ok((MeshModel {
                        bone_index: m.bone_index + Seq::new(n as nat, |k: int| byte4_at(b, o + 4 * k)),
                        ..m
                    }, o + 4 * n))
                } else {
                    bad
                })
            } else {
                None
            }
        },
    }
}

/// The section at `off`: a one-byte name length, the name, a four-byte size, then the
/// body. Gives the mesh and precision after it, the offset of the next section, and
/// whether it was the closing `END` section. Sections of unknown names are skipped by
/// their declared size.
pub open spec fn section_at(b: Seq<u8>, off: int, m: MeshModel, p: Precision) -> Result<
    (MeshModel, Precision, int, bool),
    DecodeError,
> {
    match text_at(b, off) {
        Some((name, o)) => match word_at(b, o) {
            Some((size, body)) => if name == "END"@ {
                Ok((m, p, body, true))
            } else if name == "INFO"@ {
                if body + 5 <= b.len() {
                    Ok((m, Precision {
                        vertex: b[body + 1] == 2,
                        uv: b[body + 2] == 2,
                        index: b[body + 3] == 2,
                        normal: b[body + 4] == 2,
                    }, body + 5, false))
                } else {
                    Err(DecodeError::MalformedInput)
                }
            } else if name == "BONE"@ {
                match bone_section(b, body, m) {
                    Ok((m2, o2)) => Ok((m2, p, o2, false)),
                    Err(e) => Err(e),
                }
            } else {
                match stream_section(b, body, name, m, p) {
                    Some(Ok((m2, o2))) => Ok((m2, p, o2, false)),
                    Some(Err(e)) => Err(e),
                    None => if body + size <= b.len() {
                        Ok((m, p, body + size, false))
                    } else {
                        Err(DecodeError::MalformedInput)
                    },
                }
            },
            None => Err(DecodeError::MalformedInput),
        },
        None => Err(DecodeError::MalformedInput),
    }
}

/// Decodes sections from `off` until the `END` section.
pub open spec fn sections_from(b: Seq<u8>, off: int, m: MeshModel, p: Precision) -> Result<MeshModel, DecodeError>
    decreases b.len() - off,
{
    match section_at(b, off, m, p) {
        Ok((m2, p2, o, done)) => if done {
            Ok(m2)
        } else if off < o <= b.len() {
            sections_from(b, o, m2, p2)
        } else {
            Err(DecodeError::MalformedInput)
        },
        Err(e) => Err(e),
    }
}

/// The mesh that a chunked asset decodes to.
pub open spec fn chunked_model(b: Seq<u8>) -> Result<MeshModel, DecodeError> {
    sections_from(b, 0, initial_mesh(), default_precision())
}

fn decode_stream(mesh: &mut MeshData, b: &[u8], off: usize, name: &str, p: Precision) -> (r: Option<
    Result<usize, DecodeError>,
>)
    ensures
        match stream_section(b@, off as int, name@, old(mesh)@, p) {
            None => r is None && final(mesh)@ == old(mesh)@,
            Some(Ok((m, o))) => r matches Some(Ok(q)) && q as int == o && final(mesh)@ == m,
            Some(Err(e)) => r == Some(Err::<usize, DecodeError>(e)),
        },
{
    let bad = Some(Err(DecodeError::MalformedInput));
    let is_vertex = same_text(name, "VERTEX");
    let is_normal = same_text(name, "NORMAL");
    let is_uv = same_text(name, "UV");
    let is_index = same_text(name, "INDEX");
    let is_weight = same_text(name, "BONE_WEIGHT");
    let is_bone_index = same_text(name, "BONE_INDEX");
    if !(is_vertex || is_normal || is_uv || is_index || is_weight || is_bone_index) {
        return None;
    }
    let (n, o) = match read_word(b, off) {
        Some(x) => x,
        None => return bad,
    };
    let len = b.len();
    let ghost m0 = mesh@;
    let done = if is_vertex {
        if p.vertex {
            if o > len || len - o < 24 {
                return bad;
            }
            let bounds = read_bounds(b, o);
            read_packed_positions(b, o + 24, n, bounds, &mut mesh.vertex)
        } else {
            read_plain_positions(b, o, n, &mut mesh.vertex)
        }
    } else if is_normal {
        if p.normal {
            read_packed_normals(b, o, n, &mut mesh.normal)
        } else {
            read_plain_normals(b, o, n, &mut mesh.normal)
        }
    } else if is_uv {
        if p.uv {
            read_packed_uvs(b, o, n, &mut mesh.uv0)
        } else {
            read_plain_uvs(b, o, n, &mut mesh.uv0)
        }
    } else if is_index {
        if p.index {
            read_narrow_indices(b, o, n, &mut mesh.index)
        } else {
            read_wide_indices(b, o, n, &mut mesh.index)
        }
    } else if is_weight {
        read_byte4s(b, o, n, &mut mesh.bone_weight)
    } else {
        read_byte4s(b, o, n, &mut mesh.bone_index)
    };
    match done {
        Some(e) => {
            assert(mesh@ =~= match stream_section(b@, off as int, name@, m0, p) {
                Some(Ok((m, _))) => m,
                _ => m0,
            });
            Some(Ok(e))
        },
        None => bad,
    }
}

/// The mesh is ready for chunked decoding: a full bone table and a consistent lookup.
pub open spec fn table_ok(m: MeshModel) -> bool {
    m.bones.len() == BONE_CAPACITY && lookup_ok(m)
}

fn read_quat(b: &[u8], off: usize) -> (r: RawVec4)
    requires
        off + 16 <= b@.len(),
    ensures
        r == vec4_at(b@, off as int),
{
    let len = b.len();
    RawVec4 { x: word(b, off), y: word(b, off + 4), z: word(b, off + 8), w: word(b, off + 12) }
}

fn read_rows(b: &[u8], off: usize) -> (r: BindRows)
    requires
        off + 48 <= b@.len(),
    ensures
        r == rows_at(b@, off as int),
{
    let len = b.len();
    BindRows {
        r0: read_vec3(b, off),
        r1: read_vec3(b, off + 12),
        r2: read_vec3(b, off + 24),
        r3: read_vec3(b, off + 36),
    }
}

fn decode_bone_record(mesh: &mut MeshData, b: &[u8], off: usize) -> (r: Result<usize, DecodeError>)
    requires
        table_ok(old(mesh)@),
    ensures
        match bone_record(b@, off as int, old(mesh)@) {
            Ok((m, o)) => r matches Ok(q) && q as int == o && final(mesh)@ == m && table_ok(m),
            Err(e) => r == Err::<usize, DecodeError>(e),
        },
{
    let (name, o) = match read_text(b, off) {
        Some(x) => x,
        None => return Err(DecodeError::MalformedInput),
    };
    let len = b.len();
    if o > len || len - o < BONE_RECORD_TAIL {
        return Err(DecodeError::MalformedInput);
    }
    let id = b[o];
    if id as usize >= BONE_CAPACITY {
        return Err(DecodeError::OutOfRangeId);
    }
    let mut bone = Bone::new();
    bone.name = name.clone();
    bone.id = id as u32;
    bone.position = read_vec3(b, o + 1);
    bone.rotation = read_quat(b, o + 13);
    bone.inverse_bind_matrix = read_rows(b, o + 29);
    bone.is_changed = true;
    let ghost m0 = mesh@;
    mesh.bone_list[id as usize] = bone;
    mesh.bone_names.push(name);
    mesh.bone_ids.push(id as u32);
    proof {
        assert(mesh@.bones =~= m0.bones.update(id as int, bone@));
        assert(mesh@.names =~= m0.names.push(name@));
        assert(bone@ == declared_bone(name@, id, vec3_at(b@, o + 1), vec4_at(b@, o + 13), rows_at(b@, o + 29)));
        assert(mesh@ =~= MeshModel {
            bones: m0.bones.update(id as int, bone@),
            names: m0.names.push(name@),
            ids: m0.ids.push(id as u32),
            ..m0
        });
    }
    Ok(o + BONE_RECORD_TAIL)
}

fn decode_bone_section(mesh: &mut MeshData, b: &[u8], off: usize) -> (r: Result<usize, DecodeError>)
    requires
        table_ok(old(mesh)@),
    ensures
        match bone_section(b@, off as int, old(mesh)@) {
            Ok((m, o)) => r matches Ok(q) && q as int == o && final(mesh)@ == m && table_ok(m),
            Err(e) => r == Err::<usize, DecodeError>(e),
        },
{
    let len = b.len();
    if off >= len {
        return Err(DecodeError::MalformedInput);
    }
    let n = b[off];
    let ghost bb = b@;
    let ghost m0 = mesh@;
    let mut cur = off + 1;
    let mut i: u8 = 0;
    while i < n
        invariant
            bb == b@,
            len == b@.len(),
            n == b@[off as int],
            m0 == old(mesh)@,
            off < len,
            i <= n,
            table_ok(mesh@),
            bone_records(bb, off + 1, n as nat, m0) == bone_records(bb, cur as int, (n - i) as nat, mesh@),
            bone_section(bb, off as int, m0) == match bone_records(bb, off + 1, n as nat, m0) {
                Ok((m2, o)) => if 0 <= o < bb.len() {
                    match parse_node(bb, o, no_children()) {
                        Ok((o2, _, adj)) => Ok((MeshModel {
                            bones: with_children(m2.bones, adj),
                            root: bb[o] as usize,
                            ..m2
                        }, o2)),
                        Err(e) => Err(e),
                    }
                } else {
                    Err(DecodeError::MalformedInput)
                },
                Err(e) => Err(e),
            },
        decreases n - i,
    {
        let ghost mb = mesh@;
        cur = match decode_bone_record(mesh, b, cur) {
            Ok(o) => o,
            Err(e) => {
                assert(bone_records(bb, cur as int, (n - i) as nat, mb) == Err::<(MeshModel, int), DecodeError>(e));
                return Err(e);
            },
        };
        i = i + 1;
    }
    if cur >= len {
        return Err(DecodeError::MalformedInput);
    }
    let root = b[cur];
    let mut adj: Vec<Vec<u32>> = Vec::new();
    let mut k: usize = 0;
    while k < BONE_CAPACITY
        invariant
            k <= BONE_CAPACITY,
            rows(adj@) =~= Seq::new(k as nat, |i: int| Seq::<u32>::empty()),
        decreases BONE_CAPACITY - k,
    {
        let empty: Vec<u32> = Vec::new();
        let ghost before = adj@;
        adj.push(empty);
        proof {
            assert(adj@ == before.push(empty));
            assert(rows(adj@) =~= rows(before).push(empty@));
            assert(rows(adj@) =~= Seq::new((k + 1) as nat, |i: int| Seq::<u32>::empty()));
        }
        k = k + 1;
    }
    assert(rows(adj@) =~= no_children());
    assert(bone_records(bb, off + 1, n as nat, m0) == Ok::<(MeshModel, int), DecodeError>((mesh@, cur as int)));
    let (end, _) = match read_node(b, cur, &mut adj) {
        Ok(x) => x,
        Err(e) => {
            assert(parse_node(bb, cur as int, no_children()) == Err::<(int, u8, Seq<Seq<u32>>), DecodeError>(e));
            return Err(e);
        },
    };
    let ghost m2 = mesh@;
    let ghost a = rows(adj@);
    let mut j: usize = 0;
    while j < BONE_CAPACITY
        invariant
            j <= BONE_CAPACITY,
            adj@.len() == BONE_CAPACITY,
            a.len() == BONE_CAPACITY,
            m2.bones.len() == BONE_CAPACITY,
            mesh@ == (MeshModel { bones: mesh@.bones, ..m2 }),
            mesh@.bones.len() == BONE_CAPACITY,
            forall|q: int| j <= q < BONE_CAPACITY ==> #[trigger] rows(adj@)[q] == a[q],
            forall|q: int| 0 <= q < j ==> #[trigger] mesh@.bones[q] == with_children(m2.bones, a)[q],
            forall|q: int| j <= q < BONE_CAPACITY ==> #[trigger] mesh@.bones[q] == m2.bones[q],
        decreases BONE_CAPACITY - j,
    {
        let mut row: Vec<u32> = Vec::new();
        let ghost adj0 = adj@;
        assert(rows(adj0)[j as int] == adj0[j as int]@);
        if mesh.bone_list[j].id as usize == j {
            std::mem::swap(&mut row, &mut adj[j]);
            proof {
                assert(row@ == a[j as int]);
                assert forall|q: int| j + 1 <= q < BONE_CAPACITY implies #[trigger] rows(adj@)[q] == a[q] by {
                    assert(adj@[q] == adj0[q]);
                    assert(rows(adj0)[q] == adj0[q]@);
                }
            }
        } else {
            assert(row@ =~= Seq::<u32>::empty());
        }
        let ghost before = mesh@;
        let ghost old_bone = mesh.bone_list@[j as int];
        assert(mesh@.bones[j as int] == old_bone@);
        mesh.bone_list[j].children = row;
        proof {
            let nb = mesh.bone_list@[j as int];
            assert(nb@ == BoneModel { children: row@, ..old_bone@ });
            assert(old_bone@ == m2.bones[j as int]);
            assert(nb@ == with_children(m2.bones, a)[j as int]);
            assert(mesh@.bones =~= before.bones.update(j as int, with_children(m2.bones, a)[j as int]));
        }
        j = j + 1;
    }
    mesh.bone_root_id = root as usize;
    proof {
        assert(mesh@.bones =~= with_children(m2.bones, a));
    }
    Ok(end)
}

fn decode_section(mesh: &mut MeshData, prec: &mut Precision, b: &[u8], off: usize) -> (r: Result<
    (usize, bool),
    DecodeError,
>)
    requires
        table_ok(old(mesh)@),
    ensures
        match section_at(b@, off as int, old(mesh)@, *old(prec)) {
            Ok((m, p, o, done)) => r matches Ok((q, d)) && q as int == o && d == done && final(mesh)@ == m
                && *final(prec) == p && table_ok(m),
            Err(e) => r == Err::<(usize, bool), DecodeError>(e),
        },
{
    let (name, o) = match read_text(b, off) {
        Some(x) => x,
        None => return Err(DecodeError::MalformedInput),
    };
    let (size, body) = match read_word(b, o) {
        Some(x) => x,
        None => return Err(DecodeError::MalformedInput),
    };
    let len = b.len();
    let name = name.as_str();
    if same_text(name, "END") {
        return Ok((body, true));
    }
    if same_text(name, "INFO") {
        if body > len || len - body < 5 {
            return Err(DecodeError::MalformedInput);
        }
        *prec = Precision {
            vertex: b[body + 1] == 2,
            uv: b[body + 2] == 2,
            index: b[body + 3] == 2,
            normal: b[body + 4] == 2,
        };
        return Ok((body + 5, false));
    }
    if same_text(name, "BONE") {
        return match decode_bone_section(mesh, b, body) {
            Ok(o2) => Ok((o2, false)),
            Err(e) => Err(e),
        };
    }
    match decode_stream(mesh, b, body, name, *prec) {
        Some(Ok(o2)) => Ok((o2, false)),
        Some(Err(e)) => Err(e),
        None => if body > len || size as usize > len - body {
            Err(DecodeError::MalformedInput)
        } else {
            Ok((body + size as usize, false))
        },
    }
}

/// The mesh that a minimal asset decodes to: four streams, each a two-byte count and
/// full-precision entries, in the order vertices, normals, 16-bit indices, texture
/// coordinates.
pub open spec fn minimal_model(b: Seq<u8>) -> Option<MeshModel> {
    if 2 <= b.len() {
        let nv = u16_at(b, 0) as int;
        let o1 = 2 + 12 * nv;
        if o1 + 2 <= b.len() {
            let nn = u16_at(b, o1) as int;
            let o2 = o1 + 2 + 12 * nn;
            if o2 + 2 <= b.len() {
                let ni = u16_at(b, o2) as int;
                let o3 = o2 + 2 + 2 * ni;
                if o3 + 2 <= b.len() {
                    let nu = u16_at(b, o3) as int;
                    if o3 + 2 + 8 * nu <= b.len() {
                        Some(MeshModel {
                            vertex: Seq::new(nv as nat, |k: int| Position::Plain(vec3_at(b, 2 + 12 * k))),
                            normal: Seq::new(nn as nat, |k: int| Normal::Plain(vec3_at(b, o1 + 2 + 12 * k))),
                            index: Seq::new(ni as nat, |k: int| u16_at(b, o2 + 2 + 2 * k) as u32),
                            uv0: Seq::new(nu as nat, |k: int| TexCoord::Plain(vec2_at(b, o3 + 2 + 8 * k))),
                            ..empty_mesh()
                        })
                    } else {
                        None
                    }
                } else {
                    None
                }
            } else {
                None
            }
        } else {
            None
        }
    } else {
        None
    }
}

impl MeshData {
    /// A mesh with nothing in it: no streams, no bone slots, an empty lookup, no clips.
    pub fn new() -> (m: MeshData)
        ensures
            m@ == empty_mesh(),
            lookup_ok(m@),
    {
        let m = MeshData {
            id: 0,
            vertex: Vec::new(),
            index: Vec::new(),
            normal: Vec::new(),
            uv0: Vec::new(),
            bone_weight: Vec::new(),
            bone_index: Vec::new(),
            bone_list: Vec::new(),
            bone_root_id: 0,
            bone_names: Vec::new(),
            bone_ids: Vec::new(),
            animation_list: Vec::new(),
        };
        assert(m@.vertex =~= seq![]);
        assert(m@.index =~= seq![]);
        assert(m@.normal =~= seq![]);
        assert(m@.uv0 =~= seq![]);
        assert(m@.bone_weight =~= seq![]);
        assert(m@.bone_index =~= seq![]);
        assert(m@.bones =~= seq![]);
        assert(m@.names =~= seq![]);
        assert(m@.ids =~= seq![]);
        assert(m@.animations =~= seq![]);
        m
    }

    /// Decodes the minimal layout. Fails with `MalformedInput` exactly where the bytes end
    /// before the four streams do.
    pub fn from_mm_bytes(bytes: &[u8]) -> (r: Result<MeshData, DecodeError>)
        ensures
            match minimal_model(bytes@) {
                Some(m) => r matches Ok(d) && d@ == m && lookup_ok(m),
                None => r == Err::<MeshData, DecodeError>(DecodeError::MalformedInput),
            },
    {
        let bad = Err(DecodeError::MalformedInput);
        let mut mesh = MeshData::new();
        let nv = match u16_at_offset(bytes, 0) {
            Some(v) => v,
            None => return bad,
        };
        let o1 = match read_plain_positions(bytes, 2, nv as u32, &mut mesh.vertex) {
            Some(o) => o,
            None => return bad,
        };
        let nn = match u16_at_offset(bytes, o1) {
            Some(v) => v,
            None => return bad,
        };
        let o2 = match read_plain_normals(bytes, o1 + 2, nn as u32, &mut mesh.normal) {
            Some(o) => o,
            None => return bad,
        };
        let ni = match u16_at_offset(bytes, o2) {
            Some(v) => v,
            None => return bad,
        };
        let o3 = match read_narrow_indices(bytes, o2 + 2, ni as u32, &mut mesh.index) {
            Some(o) => o,
            None => return bad,
        };
        let nu = match u16_at_offset(bytes, o3) {
            Some(v) => v,
            None => return bad,
        };
        match read_plain_uvs(bytes, o3 + 2, nu as u32, &mut mesh.uv0) {
            Some(_) => {},
            None => return bad,
        }
        assert(mesh@ =~= minimal_model(bytes@).unwrap());
        Ok(mesh)
    }

    /// Decodes the chunked layout: sections until `END`, into a full table of 255 bone
    /// slots. Fails exactly where `chunked_model` says: `OutOfRangeId` for a bone id that
    /// does not fit the table, `MalformedInput` for anything else that does not parse.
    pub fn from_mm2_bytes(bytes: &[u8]) -> (r: Result<MeshData, DecodeError>)
        ensures
            match chunked_model(bytes@) {
                Ok(m) => r matches Ok(d) && d@ == m && table_ok(m),
                Err(e) => r == Err::<MeshData, DecodeError>(e),
            },
    {
        let mut mesh = MeshData::new();
        let mut k: usize = 0;
        assert(mesh@.bones =~= Seq::new(0, |i: int| default_bone()));
        while k < BONE_CAPACITY
            invariant
                k <= BONE_CAPACITY,
                mesh@ == (MeshModel { bones: Seq::new(k as nat, |i: int| default_bone()), ..empty_mesh() }),
            decreases BONE_CAPACITY - k,
        {
            let bone = Bone::new();
            let ghost before = mesh@;
            mesh.bone_list.push(bone);
            proof {
                assert(mesh@.bones =~= before.bones.push(bone@));
                assert(mesh@.bones =~= Seq::new((k + 1) as nat, |i: int| default_bone()));
                assert(mesh@ =~= MeshModel { bones: Seq::new((k + 1) as nat, |i: int| default_bone()), ..empty_mesh() });
            }
            k = k + 1;
        }
        let mut prec = Precision { vertex: false, uv: false, index: false, normal: false };
        let len = bytes.len();
        let mut cur: usize = 0;
        assert(mesh@ == initial_mesh());
        loop
            invariant
                cur <= len,
                len == bytes@.len(),
                table_ok(mesh@),
                chunked_model(bytes@) == sections_from(bytes@, cur as int, mesh@, prec),
            decreases len - cur,
        {
            let (next, done) = match decode_section(&mut mesh, &mut prec, bytes, cur) {
                Ok(x) => x,
                Err(e) => return Err(e),
            };
            if done {
                return Ok(mesh);
            }
            if next <= cur || next > len {
                return Err(DecodeError::MalformedInput);
            }
            cur = next;
        }
    }

    /// The id that the name lookup gives `name` (its latest entry), if any.
    pub fn bone_id(&self, name: &str) -> (r: Option<u32>)
        requires
            lookup_ok(self@),
        ensures
            r == name_lookup(self@.names, self@.ids, name@),
    {
        let mut i: usize = self.bone_names.len();
        proof {
            assert(self@.names.take(i as int) =~= self@.names);
            assert(self@.ids.take(i as int) =~= self@.ids);
        }
        while i > 0
            invariant
                i <= self@.names.len(),
                lookup_ok(self@),
                name_lookup(self@.names, self@.ids, name@) == name_lookup(
                    self@.names.take(i as int),
                    self@.ids.take(i as int),
                    name@,
                ),
            decreases i,
        {
            proof {
                assert(self@.names.take(i as int).drop_last() =~= self@.names.take(i - 1));
                assert(self@.ids.take(i as int).drop_last() =~= self@.ids.take(i - 1));
                assert(self@.names[i - 1] == self.bone_names@[i - 1]@);
            }
            if same_text(self.bone_names[i - 1].as_str(), name) {
                return Some(self.bone_ids[i - 1]);
            }
            i = i - 1;
        }
        None
    }

    /// Sets the runtime rotation of the bone that the lookup gives `name`, and marks it
    /// changed. A name the lookup lacks changes nothing.
    pub fn set_bone_rotation(&mut self, name: &str, q: RawVec4)
        requires
            lookup_ok(old(self)@),
        ensures
            final(self)@ == match name_lookup(old(self)@.names, old(self)@.ids, name@) {
                Some(id) => rotated(old(self)@, id as int, q),
                None => old(self)@,
            },
            lookup_ok(final(self)@),
    {
        match self.bone_id(name) {
            Some(id) => {
                proof { lemma_lookup_in_table(self@, name@); }
                let ghost m0 = self@;
                self.bone_list[id as usize].local_rotation = q;
                self.bone_list[id as usize].is_changed = true;
                proof {
                    assert(self@.bones =~= rotated(m0, id as int, q).bones);
                    assert(self@ =~= rotated(m0, id as int, q));
                }
            },
            None => {},
        }
    }

    /// Writes one sampled channel value into the bone that the lookup gives `key`: a
    /// translation sets its runtime position (the first three components), a rotation its
    /// runtime rotation, and either marks it changed. Other kinds, and keys the lookup
    /// lacks, change nothing.
    pub fn apply_channel_value(&mut self, key: &str, kind: u8, value: RawVec4)
        requires
            lookup_ok(old(self)@),
        ensures
            final(self)@ == match name_lookup(old(self)@.names, old(self)@.ids, key@) {
                Some(id) => if kind == KIND_TRANSLATION {
                    moved(old(self)@, id as int, RawVec3 { x: value.x, y: value.y, z: value.z })
                } else if kind == KIND_ROTATION {
                    rotated(old(self)@, id as int, value)
                } else {
                    old(self)@
                },
                None => old(self)@,
            },
            lookup_ok(final(self)@),
    {
        if kind == KIND_ROTATION {
            self.set_bone_rotation(key, value);
        } else if kind == KIND_TRANSLATION {
            match self.bone_id(key) {
                Some(id) => {
                    proof { lemma_lookup_in_table(self@, key@); }
                    let ghost m0 = self@;
                    let v = RawVec3 { x: value.x, y: value.y, z: value.z };
                    self.bone_list[id as usize].local_position = v;
                    self.bone_list[id as usize].is_changed = true;
                    proof {
                        assert(self@.bones =~= moved(m0, id as int, v).bones);
                        assert(self@ =~= moved(m0, id as int, v));
                    }
                },
                None => {},
            }
        }
    }

    /// The index of the first clip named `name`, if any.
    pub fn animation_index(&self, name: &str) -> (r: Option<usize>)
        ensures
            match r {
                Some(i) => i < self@.animations.len() && self@.animations[i as int].name == name@
                    && forall|j: int| 0 <= j < i ==> self@.animations[j].name != name@,
                None => forall|j: int| 0 <= j < self@.animations.len() ==> self@.animations[j].name != name@,
            },
    {
        let mut i: usize = 0;
        while i < self.animation_list.len()
            invariant
                i <= self@.animations.len(),
                self@.animations.len() == self.animation_list@.len(),
                forall|j: int| 0 <= j < i ==> self@.animations[j].name != name@,
            decreases self.animation_list@.len() - i,
        {
            assert(self@.animations[i as int] == self.animation_list@[i as int]@);
            if same_text(self.animation_list[i].name.as_str(), name) {
                return Some(i);
            }
            i = i + 1;
        }
        None
    }
}

/// The mesh with bone `id`'s runtime rotation set to `q` and the bone marked changed.
pub open spec fn rotated(m: MeshModel, id: int, q: RawVec4) -> MeshModel {
    MeshModel {
        bones: m.bones.update(id, BoneModel { local_rotation: q, is_changed: true, ..m.bones[id] }),
        ..m
    }
}

/// The mesh with bone `id`'s runtime position set to `v` and the bone marked changed.
pub open spec fn moved(m: MeshModel, id: int, v: RawVec3) -> MeshModel {
    MeshModel {
        bones: m.bones.update(id, BoneModel { local_position: v, is_changed: true, ..m.bones[id] }),
        ..m
    }
}

/// What the lookup gives a name is a slot of the table.
pub proof fn lemma_lookup_in_table(m: MeshModel, name: Seq<char>)
    requires
        lookup_ok(m),
    ensures
        name_lookup(m.names, m.ids, name) matches Some(id) ==> (id as int) < m.bones.len(),
    decreases m.names.len(),
{
    if m.names.len() > 0 && m.names.last() != name {
        let m2 = MeshModel { names: m.names.drop_last(), ids: m.ids.drop_last(), ..m };
        assert forall|k: int| 0 <= k < m2.ids.len() implies (#[trigger] m2.ids[k] as int) < m2.bones.len() by {
            assert(m2.ids[k] == m.ids[k]);
        }
        lemma_lookup_in_table(m2, name);
    }
}


/// Whether `name` is one of the section names that the decoder reads.
pub open spec fn known_section(name: Seq<char>) -> bool {
    name == "END"@ || name == "INFO"@ || name == "BONE"@ || name == "VERTEX"@ || name == "NORMAL"@
        || name == "UV"@ || name == "INDEX"@ || name == "BONE_WEIGHT"@ || name == "BONE_INDEX"@
}

/// A section with a name the decoder does not know, whose declared size `N` fits the
/// bytes, moves the cursor exactly `N` bytes past its header and changes neither the mesh
/// nor the precision settings.
pub proof fn lemma_unknown_section_skipped(b: Seq<u8>, off: int, m: MeshModel, p: Precision)
    requires
        text_at(b, off) matches Some((name, o)) && !known_section(name) && o + 4 + u32_at(b, o) <= b.len(),
    ensures
        ({
            let o = text_at(b, off)->Some_0.1;
            section_at(b, off, m, p) == Ok::<(MeshModel, Precision, int, bool), DecodeError>(
                (m, p, o + 4 + u32_at(b, o), false),
            )
        }),
{
    let (name, o) = text_at(b, off)->Some_0;
    assert(word_at(b, o) == Some((u32_at(b, o), o + 4)));
    assert(stream_section(b, o + 4, name, m, p) is None);
}

/// Packed vertex keys survive decoding: in a `VERTEX` section body at `off` read at 16-bit
/// precision, whose count is `keys.len()` and whose entries hold the bytes of `keys`,
/// entry `k` decodes to exactly `keys[k]` with the ranges stored before the entries.
pub proof fn lemma_packed_vertices_round_trip(
    b: Seq<u8>,
    off: int,
    m: MeshModel,
    p: Precision,
    keys: Seq<PackedVec3>,
)
    requires
        p.vertex,
        0 <= off,
        off + 28 + 6 * keys.len() <= b.len(),
        u32_at(b, off) as int == keys.len(),
        forall|k: int|
            0 <= k < keys.len() ==> b.subrange(off + 28 + 6 * k, off + 34 + 6 * k) == packed3_bytes(
                #[trigger] keys[k],
            ),
    ensures
        stream_section(b, off, "VERTEX"@, m, p) == Some(
            Ok::<(MeshModel, int), DecodeError>((MeshModel {
                vertex: m.vertex + Seq::new(
                    keys.len(),
                    |k: int| Position::Packed(keys[k], bounds_at(b, off + 4)),
                ),
                ..m
            }, off + 28 + 6 * keys.len())),
        ),
{
    let n = keys.len() as int;
    let o = off + 4;
    assert(word_at(b, off) == Some((u32_at(b, off), o)));
    assert(fits(b, o + 24, n, 6));
    let decoded = Seq::new(n as nat, |k: int| Position::Packed(packed3_at(b, o + 24 + 6 * k), bounds_at(b, o)));
    let expected = Seq::new(keys.len(), |k: int| Position::Packed(keys[k], bounds_at(b, off + 4)));
    assert forall|k: int| 0 <= k < n implies decoded[k] == expected[k] by {
        assert(b.subrange(off + 28 + 6 * k, off + 34 + 6 * k) == packed3_bytes(keys[k]));
        lemma_packed_keys_round_trip(b, o + 24 + 6 * k, keys[k]);
    }
    assert(decoded =~= expected);
}

} // verus!
