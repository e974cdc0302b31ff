//! The raw scene model an OBJ text parses into: vertex pools, and groups of
//! polygonal faces whose corners reference the pools by 1-based indices.
//! Scalars are numeric tokens, kept as they stood in the source text.

use vstd::prelude::*;

verus! {

// ------------------------------------------------------------- scalar tuples

/// A 4-component vector of numeric tokens; for vertex positions the last
/// component is the `w` weight.
#[derive(Clone, Debug, PartialEq)]
pub struct Vector4 {
    pub x: String,
    pub y: String,
    pub z: String,
    pub w: String,
}

/// A 3-component vector of numeric tokens.
#[derive(Clone, Debug, PartialEq)]
pub struct Vector3 {
    pub x: String,
    pub y: String,
    pub z: String,
}

/// A 2-component vector of numeric tokens.
#[derive(Clone, Debug, PartialEq)]
pub struct Vector2 {
    pub x: String,
    pub y: String,
}

#[verifier::ext_equal]
pub struct Vector4View {
    pub x: Seq<char>,
    pub y: Seq<char>,
    pub z: Seq<char>,
    pub w: Seq<char>,
}

#[verifier::ext_equal]
pub struct Vector3View {
    pub x: Seq<char>,
    pub y: Seq<char>,
    pub z: Seq<char>,
}

#[verifier::ext_equal]
pub struct Vector2View {
    pub x: Seq<char>,
    pub y: Seq<char>,
}

impl View for Vector4 {
    type V = Vector4View;

    open spec fn view(&self) -> Vector4View {
        Vector4View { x: self.x@, y: self.y@, z: self.z@, w: self.w@ }
    }
}

impl DeepView for Vector4 {
    type V = Vector4View;

    open spec fn deep_view(&self) -> Vector4View {
        self.view()
    }
}

impl View for Vector3 {
    type V = Vector3View;

    open spec fn view(&self) -> Vector3View {
        Vector3View { x: self.x@, y: self.y@, z: self.z@ }
    }
}

impl DeepView for Vector3 {
    type V = Vector3View;

    open spec fn deep_view(&self) -> Vector3View {
        self.view()
    }
}

impl View for Vector2 {
    type V = Vector2View;

    open spec fn view(&self) -> Vector2View {
        Vector2View { x: self.x@, y: self.y@ }
    }
}

impl DeepView for Vector2 {
    type V = Vector2View;

    open spec fn deep_view(&self) -> Vector2View {
        self.view()
    }
}

// --------------------------------------------------------- token invariants

/// Every scalar token of the vector is a number the standard float parser
/// accepts.
pub open spec fn vec4_tokens_valid(p: Vector4View) -> bool {
    &&& crate::numtok::is_float_token(p.x)
    &&& crate::numtok::is_float_token(p.y)
    &&& crate::numtok::is_float_token(p.z)
    &&& crate::numtok::is_float_token(p.w)
}

pub open spec fn vec3_tokens_valid(p: Vector3View) -> bool {
    &&& crate::numtok::is_float_token(p.x)
    &&& crate::numtok::is_float_token(p.y)
    &&& crate::numtok::is_float_token(p.z)
}

pub open spec fn vec2_tokens_valid(p: Vector2View) -> bool {
    &&& crate::numtok::is_float_token(p.x)
    &&& crate::numtok::is_float_token(p.y)
}

/// Every scalar token in the scene's vertex pools is a valid number, so a
/// caller can always turn it into a machine float.
pub open spec fn scene_tokens_valid(sv: SceneView) -> bool {
    &&& forall|i: int| 0 <= i < sv.vert_pos.len() ==> vec4_tokens_valid(#[trigger] sv.vert_pos[i])
    &&& forall|i: int|
        0 <= i < sv.vert_norm.len() ==> vec3_tokens_valid(#[trigger] sv.vert_norm[i])
    &&& forall|i: int| 0 <= i < sv.vert_tx.len() ==> vec2_tokens_valid(#[trigger] sv.vert_tx[i])
}

// -------------------------------------------------------------------- faces

/// One vertex reference of a face: 1-based indices into the position,
/// normal and texture-coordinate pools, plus the smoothing group the `s`
/// directive context assigned (a pass-through field, never consumed by the
/// triangulation engine).
#[derive(Clone, Copy, Debug, PartialEq, Eq, Structural)]
pub struct ObjFaceCorner {
    pub smooth_i: Option<u32>,
    pub pos_i: u32,
    pub norm_i: u32,
    pub tx_i: u32,
}

impl DeepView for ObjFaceCorner {
    type V = ObjFaceCorner;

    open spec fn deep_view(&self) -> ObjFaceCorner {
        *self
    }
}

/// A polygonal face: an ordered run of corners.
#[derive(Clone, Debug, PartialEq)]
pub struct ObjFace {
    pub corners: Vec<ObjFaceCorner>,
}

impl View for ObjFace {
    type V = Seq<ObjFaceCorner>;

    open spec fn view(&self) -> Seq<ObjFaceCorner> {
        self.corners@
    }
}

impl DeepView for ObjFace {
    type V = Seq<ObjFaceCorner>;

    open spec fn deep_view(&self) -> Seq<ObjFaceCorner> {
        self.corners@
    }
}

// ------------------------------------------------------------------- groups

/// A named group of faces with an optional material reference.
#[derive(Clone, Debug, PartialEq)]
pub struct ObjGroup {
    pub name: String,
    pub mat: Option<String>,
    pub faces: Vec<ObjFace>,
}

#[verifier::ext_equal]
pub struct GroupView {
    pub name: Seq<char>,
    pub mat: Option<Seq<char>>,
    pub faces: Seq<Seq<ObjFaceCorner>>,
}

impl View for ObjGroup {
    type V = GroupView;

    open spec fn view(&self) -> GroupView {
        GroupView { name: self.name@, mat: self.mat.deep_view(), faces: self.faces.deep_view() }
    }
}

impl DeepView for ObjGroup {
    type V = GroupView;

    open spec fn deep_view(&self) -> GroupView {
        self.view()
    }
}

// -------------------------------------------------------------------- scene

/// A parsed OBJ scene: the three vertex pools and the groups, in the order
/// the text introduced them. Every group holds at least one face; a group
/// that was still empty when the next `g` directive (or the end of input)
/// arrived is discarded.
#[derive(Clone, Debug, PartialEq)]
pub struct ObjScene {
    pub vert_pos: Vec<Vector4>,
    pub vert_norm: Vec<Vector3>,
    pub vert_tx: Vec<Vector2>,
    pub grps: Vec<ObjGroup>,
}

#[verifier::ext_equal]
pub struct SceneView {
    pub vert_pos: Seq<Vector4View>,
    pub vert_norm: Seq<Vector3View>,
    pub vert_tx: Seq<Vector2View>,
    pub grps: Seq<GroupView>,
}

impl View for ObjScene {
    type V = SceneView;

    open spec fn view(&self) -> SceneView {
        SceneView {
            vert_pos: self.vert_pos.deep_view(),
            vert_norm: self.vert_norm.deep_view(),
            vert_tx: self.vert_tx.deep_view(),
            grps: self.grps.deep_view(),
        }
    }
}

} // verus!
