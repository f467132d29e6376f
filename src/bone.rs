use vstd::prelude::*;
use crate::bits::{ONE_BITS, RawVec3, RawVec4};

verus! {

/// The rows of an inverse-bind matrix: each holds the first three columns of one row; the
/// fourth column is 0 for the first three rows and 1 for the last.
#[derive(Copy, Clone, Debug, PartialEq, Eq, Structural)]
pub struct BindRows {
    pub r0: RawVec3,
    pub r1: RawVec3,
    pub r2: RawVec3,
    pub r3: RawVec3,
}

/// A slot of the bone table: bind pose, runtime pose overrides and child ids.
#[derive(Clone, Debug)]
pub struct Bone {
    pub name: String,
    pub id: u32,
    pub is_changed: bool,
    pub position: RawVec3,
    pub rotation: RawVec4,
    pub local_rotation: RawVec4,
    pub local_position: RawVec3,
    pub local_scale: RawVec3,
    pub inverse_bind_matrix: BindRows,
    pub children: Vec<u32>,
}

/// What a bone slot holds.
pub ghost struct BoneModel {
    pub name: Seq<char>,
    pub id: u32,
    pub is_changed: bool,
    pub position: RawVec3,
    pub rotation: RawVec4,
    pub local_rotation: RawVec4,
    pub local_position: RawVec3,
    pub local_scale: RawVec3,
    pub inverse_bind_matrix: BindRows,
    pub children: Seq<u32>,
}

impl View for Bone {
    type V = BoneModel;

    open spec fn view(&self) -> BoneModel {
        BoneModel {
            name: self.name@,
            id: self.id,
            is_changed: self.is_changed,
            position: self.position,
            rotation: self.rotation,
            local_rotation: self.local_rotation,
            local_position: self.local_position,
            local_scale: self.local_scale,
            inverse_bind_matrix: self.inverse_bind_matrix,
            children: self.children@,
        }
    }
}

/// The zero vector.
pub open spec fn zero3() -> RawVec3 {
    RawVec3 { x: 0, y: 0, z: 0 }
}

/// The vector (1, 1, 1).
pub open spec fn one3() -> RawVec3 {
    RawVec3 { x: ONE_BITS, y: ONE_BITS, z: ONE_BITS }
}

/// The identity quaternion (0, 0, 0, 1).
pub open spec fn identity_quat() -> RawVec4 {
    RawVec4 { x: 0, y: 0, z: 0, w: ONE_BITS }
}

/// The identity matrix's rows.
pub open spec fn identity_rows() -> BindRows {
    BindRows {
        r0: RawVec3 { x: ONE_BITS, y: 0, z: 0 },
        r1: RawVec3 { x: 0, y: ONE_BITS, z: 0 },
        r2: RawVec3 { x: 0, y: 0, z: ONE_BITS },
        r3: RawVec3 { x: 0, y: 0, z: 0 },
    }
}

/// An unused slot: no name, id 0, never changed, at rest, with no children.
pub open spec fn default_bone() -> BoneModel {
    BoneModel {
        name: Seq::empty(),
        id: 0,
        is_changed: false,
        position: zero3(),
        rotation: identity_quat(),
        local_rotation: identity_quat(),
        local_position: zero3(),
        local_scale: one3(),
        inverse_bind_matrix: identity_rows(),
        children: Seq::empty(),
    }
}

impl Bone {
    /// An unused slot.
    pub fn new() -> (b: Bone)
        ensures
            b@ == default_bone(),
    {
        let b = Bone {
            name: String::new(),
            id: 0,
            is_changed: false,
            position: RawVec3 { x: 0, y: 0, z: 0 },
            rotation: RawVec4 { x: 0, y: 0, z: 0, w: ONE_BITS },
            local_rotation: RawVec4 { x: 0, y: 0, z: 0, w: ONE_BITS },
            local_position: RawVec3 { x: 0, y: 0, z: 0 },
            local_scale: RawVec3 { x: ONE_BITS, y: ONE_BITS, z: ONE_BITS },
            inverse_bind_matrix: BindRows {
                r0: RawVec3 { x: ONE_BITS, y: 0, z: 0 },
                r1: RawVec3 { x: 0, y: ONE_BITS, z: 0 },
                r2: RawVec3 { x: 0, y: 0, z: ONE_BITS },
                r3: RawVec3 { x: 0, y: 0, z: 0 },
            },
            children: Vec::new(),
        };
        assert(b@.name =~= Seq::empty());
        assert(b@.children =~= Seq::empty());
        b
    }
}

} // verus!
