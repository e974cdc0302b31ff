//! The triangulation and deduplication engine: every group of a parsed
//! scene becomes one renderable mesh, its polygons fanned into triangles
//! over attribute buffers that hold exactly one entry per distinct
//! (position, normal, texture) index triple.

use vstd::prelude::*;

use crate::error::{ObjError, ObjErrorKind};
use crate::obj::{ObjFaceCorner, ObjScene, SceneView, Vector2, Vector2View, Vector3, Vector3View};

verus! {

// -------------------------------------------------------------------- types

/// The composite key identifying a unique output vertex: the corner's three
/// 1-based pool indices, taken as opaque identity.
#[derive(Clone, Copy, Debug, PartialEq, Eq, Structural)]
pub struct CornerKey {
    pub pos_i: u32,
    pub norm_i: u32,
    pub tx_i: u32,
}

/// One triangle, as three 0-based slots into the mesh's parallel buffers.
#[derive(Clone, Copy, Debug, PartialEq, Eq, Structural)]
pub struct Triangle {
    pub a: u32,
    pub b: u32,
    pub c: u32,
}

impl DeepView for Triangle {
    type V = Triangle;

    open spec fn deep_view(&self) -> Triangle {
        *self
    }
}

/// The renderable mesh derived from one group: deduplicated parallel
/// attribute buffers and a triangle list indexing into them.
#[derive(Clone, Debug, PartialEq)]
pub struct ObjRenderable {
    pub name: String,
    pub mat_name: Option<String>,
    pub v_pos: Vec<Vector3>,
    pub v_norm: Vec<Vector3>,
    pub v_tx: Vec<Vector2>,
    pub inds: Vec<Triangle>,
}

#[verifier::ext_equal]
pub struct RenderableView {
    pub name: Seq<char>,
    pub mat_name: Option<Seq<char>>,
    pub v_pos: Seq<Vector3View>,
    pub v_norm: Seq<Vector3View>,
    pub v_tx: Seq<Vector2View>,
    pub inds: Seq<Triangle>,
}

impl View for ObjRenderable {
    type V = RenderableView;

    open spec fn view(&self) -> RenderableView {
        RenderableView {
            name: self.name@,
            mat_name: self.mat_name.deep_view(),
            v_pos: self.v_pos.deep_view(),
            v_norm: self.v_norm.deep_view(),
            v_tx: self.v_tx.deep_view(),
            inds: self.inds.deep_view(),
        }
    }
}

impl DeepView for ObjRenderable {
    type V = RenderableView;

    open spec fn deep_view(&self) -> RenderableView {
        self.view()
    }
}

// -------------------------------------------------------------- spec: dedup

/// First index of `k` among the keys seen so far, if any.
pub open spec fn spec_find_key(keys: Seq<CornerKey>, k: CornerKey) -> Option<int>
    decreases keys.len(),
{
    if keys.len() == 0 {
        None
    } else if keys[0] == k {
        Some(0)
    } else {
        match spec_find_key(keys.drop_first(), k) {
            Some(i) => Some(i + 1),
            None => None,
        }
    }
}

/// A scan that saw no `k` before `m`, and `k` or the end at `m`, agrees
/// with `spec_find_key`.
pub proof fn lemma_find_key_is(keys: Seq<CornerKey>, k: CornerKey, m: int)
    requires
        0 <= m <= keys.len(),
        forall|j: int| 0 <= j < m ==> keys[j] != k,
        m < keys.len() ==> keys[m] == k,
    ensures
        spec_find_key(keys, k) == (if m == keys.len() {
            None::<int>
        } else {
            Some(m)
        }),
    decreases keys.len(),
{
    if keys.len() == 0 {
    } else if keys[0] == k {
        assert(m == 0);
    } else {
        assert(m >= 1);
        assert forall|j: int| 0 <= j < m - 1 implies keys.drop_first()[j] != k by {
            assert(keys.drop_first()[j] == keys[j + 1]);
        }
        if m - 1 < keys.drop_first().len() {
            assert(keys.drop_first()[m - 1] == keys[m]);
        }
        lemma_find_key_is(keys.drop_first(), k, m - 1);
    }
}

/// When a key is found, the index addresses that key and no earlier one.
pub proof fn lemma_find_key_some(keys: Seq<CornerKey>, k: CornerKey)
    requires
        spec_find_key(keys, k) is Some,
    ensures
        0 <= spec_find_key(keys, k)->0 < keys.len(),
        keys[spec_find_key(keys, k)->0] == k,
    decreases keys.len(),
{
    if keys.len() == 0 {
    } else if keys[0] == k {
    } else {
        lemma_find_key_some(keys.drop_first(), k);
        let i = spec_find_key(keys, k)->0;
        assert(keys.drop_first()[i - 1] == keys[i]);
    }
}

// --------------------------------------------------------------- spec: mesh

/// The engine's accumulator for one group: the keys already assigned a
/// slot (the slot is the key's position), the three parallel attribute
/// buffers, and the triangles emitted so far.
#[verifier::ext_equal]
pub struct MeshView {
    pub keys: Seq<CornerKey>,
    pub v_pos: Seq<Vector3View>,
    pub v_norm: Seq<Vector3View>,
    pub v_tx: Seq<Vector2View>,
    pub inds: Seq<Triangle>,
}

pub open spec fn empty_mesh() -> MeshView {
    MeshView {
        keys: Seq::empty(),
        v_pos: Seq::empty(),
        v_norm: Seq::empty(),
        v_tx: Seq::empty(),
        inds: Seq::empty(),
    }
}

pub open spec fn key_of(c: ObjFaceCorner) -> CornerKey {
    CornerKey { pos_i: c.pos_i, norm_i: c.norm_i, tx_i: c.tx_i }
}

/// Resolve one corner: reuse the slot of an already-seen key, or check the
/// 1-based pool indices, append the dereferenced attributes (texture
/// coordinates only when the scene has any at all) and assign the next
/// slot. A fresh slot that would not fit a `u32` index is refused.
pub open spec fn spec_add_corner(m: MeshView, c: ObjFaceCorner, scene: SceneView) -> Result<
    (MeshView, u32),
    ObjErrorKind,
> {
    let k = key_of(c);
    match spec_find_key(m.keys, k) {
        Some(i) => Ok((m, i as u32)),
        None => {
            if m.keys.len() >= u32::MAX {
                Err(ObjErrorKind::IndexOutOfRange)
            } else if !(1 <= c.pos_i && c.pos_i <= scene.vert_pos.len()) {
                Err(ObjErrorKind::IndexOutOfRange)
            } else if !(1 <= c.norm_i && c.norm_i <= scene.vert_norm.len()) {
                Err(ObjErrorKind::IndexOutOfRange)
            } else if scene.vert_tx.len() > 0 && !(1 <= c.tx_i && c.tx_i
                <= scene.vert_tx.len()) {
                Err(ObjErrorKind::IndexOutOfRange)
            } else {
                let p4 = scene.vert_pos[c.pos_i - 1];
                let m2 = MeshView {
                    keys: m.keys.push(k),
                    v_pos: m.v_pos.push(Vector3View { x: p4.x, y: p4.y, z: p4.z }),
                    v_norm: m.v_norm.push(scene.vert_norm[c.norm_i - 1]),
                    v_tx: if scene.vert_tx.len() > 0 {
                        m.v_tx.push(scene.vert_tx[c.tx_i - 1])
                    } else {
                        m.v_tx
                    },
                    inds: m.inds,
                };
                Ok((m2, m.keys.len() as u32))
            }
        },
    }
}

/// Resolve the three corners of one fan triangle and emit it.
pub open spec fn spec_tri(
    m: MeshView,
    c0: ObjFaceCorner,
    c1: ObjFaceCorner,
    c2: ObjFaceCorner,
    scene: SceneView,
) -> Result<MeshView, ObjErrorKind> {
    match spec_add_corner(m, c0, scene) {
        Err(k) => Err(k),
        Ok((m1, a)) => match spec_add_corner(m1, c1, scene) {
            Err(k) => Err(k),
            Ok((m2, b)) => match spec_add_corner(m2, c2, scene) {
                Err(k) => Err(k),
                Ok((m3, c)) => Ok(MeshView { inds: m3.inds.push(Triangle { a, b, c }), ..m3 }),
            },
        },
    }
}

/// Fan-triangulate one face from fan step `i` on: triangles
/// `(corners[0], corners[i], corners[i+1])` for `i` up to `len - 2`. A face
/// with fewer than three corners yields no triangle at all.
pub open spec fn spec_face_mesh(
    m: MeshView,
    corners: Seq<ObjFaceCorner>,
    i: int,
    scene: SceneView,
) -> Result<MeshView, ObjErrorKind>
    decreases corners.len() - i,
{
    if corners.len() < 3 || i < 1 || i + 1 >= corners.len() {
        Ok(m)
    } else {
        match spec_tri(m, corners[0], corners[i], corners[i + 1], scene) {
            Ok(m2) => spec_face_mesh(m2, corners, i + 1, scene),
            Err(k) => Err(k),
        }
    }
}

/// Fold the fan triangulation over a group's faces from face `j` on.
pub open spec fn spec_group_mesh(
    m: MeshView,
    faces: Seq<Seq<ObjFaceCorner>>,
    j: int,
    scene: SceneView,
) -> Result<MeshView, ObjErrorKind>
    decreases faces.len() - j,
{
    if j >= faces.len() {
        Ok(m)
    } else {
        match spec_face_mesh(m, faces[j], 1, scene) {
            Ok(m2) => spec_group_mesh(m2, faces, j + 1, scene),
            Err(k) => Err(k),
        }
    }
}

/// The renderable one group yields.
pub open spec fn spec_group_renderable(
    g: crate::obj::GroupView,
    scene: SceneView,
) -> Result<RenderableView, ObjErrorKind> {
    match spec_group_mesh(empty_mesh(), g.faces, 0, scene) {
        Ok(m) => Ok(
            RenderableView {
                name: g.name,
                mat_name: g.mat,
                v_pos: m.v_pos,
                v_norm: m.v_norm,
                v_tx: m.v_tx,
                inds: m.inds,
            },
        ),
        Err(k) => Err(k),
    }
}

/// The renderables of the scene's groups from group `j` on, in order.
pub open spec fn spec_renderables(scene: SceneView, j: int) -> Result<
    Seq<RenderableView>,
    ObjErrorKind,
>
    decreases scene.grps.len() - j,
{
    if j >= scene.grps.len() {
        Ok(Seq::empty())
    } else {
        match spec_group_renderable(scene.grps[j], scene) {
            Err(k) => Err(k),
            Ok(r) => match spec_renderables(scene, j + 1) {
                Err(k) => Err(k),
                Ok(rest) => Ok(seq![r] + rest),
            },
        }
    }
}

/// What converting a whole scene yields: one renderable per group.
pub open spec fn spec_obj_to_renderable(scene: SceneView) -> Result<
    Seq<RenderableView>,
    ObjErrorKind,
> {
    spec_renderables(scene, 0)
}

// -------------------------------------------------------------- exec: clone

fn clone_v3(v: &Vector3) -> (r: Vector3)
    ensures
        r@ == v@,
{
    Vector3 { x: v.x.clone(), y: v.y.clone(), z: v.z.clone() }
}

fn clone_v2(v: &Vector2) -> (r: Vector2)
    ensures
        r@ == v@,
{
    Vector2 { x: v.x.clone(), y: v.y.clone() }
}

fn clone_opt_string(o: &Option<String>) -> (r: Option<String>)
    ensures
        r.deep_view() == o.deep_view(),
{
    match o {
        Some(s) => Some(s.clone()),
        None => None,
    }
}

// -------------------------------------------------------------- exec: dedup

/// The engine's accumulator while one group is converted.
struct MeshAcc {
    keys: Vec<CornerKey>,
    v_pos: Vec<Vector3>,
    v_norm: Vec<Vector3>,
    v_tx: Vec<Vector2>,
    inds: Vec<Triangle>,
}

spec fn mesh_view(acc: MeshAcc) -> MeshView {
    MeshView {
        keys: acc.keys@,
        v_pos: acc.v_pos.deep_view(),
        v_norm: acc.v_norm.deep_view(),
        v_tx: acc.v_tx.deep_view(),
        inds: acc.inds@,
    }
}

fn find_key(keys: &Vec<CornerKey>, k: CornerKey) -> (r: Option<usize>)
    ensures
        (match r {
            Some(i) => spec_find_key(keys@, k) == Some(i as int),
            None => spec_find_key(keys@, k) is None,
        }),
{
    let mut i: usize = 0;
    while i < keys.len()
        invariant
            i <= keys.len(),
            forall|j: int| 0 <= j < i ==> keys@[j] != k,
        decreases keys.len() - i,
    {
        if keys[i] == k {
            proof {
                lemma_find_key_is(keys@, k, i as int);
            }
            return Some(i);
        }
        i += 1;
    }
    proof {
        lemma_find_key_is(keys@, k, keys@.len() as int);
    }
    None
}

/// Resolve one corner against the accumulator, per `spec_add_corner`; on
/// failure the accumulator is left as it was.
fn add_corner(acc: &mut MeshAcc, c: &ObjFaceCorner, scene: &ObjScene) -> (r: Result<u32, ObjError>)
    ensures
        (match r {
            Ok(slot) => spec_add_corner(mesh_view(*old(acc)), *c, scene@) == Ok::<(MeshView, u32), ObjErrorKind>(
                (mesh_view(*final(acc)), slot),
            ),
            Err(e) => spec_add_corner(mesh_view(*old(acc)), *c, scene@) == Err::<(MeshView, u32), ObjErrorKind>(
                e.kind,
            ) && mesh_view(*final(acc)) == mesh_view(*old(acc)),
        }),
{
    let k = CornerKey { pos_i: c.pos_i, norm_i: c.norm_i, tx_i: c.tx_i };
    match find_key(&acc.keys, k) {
        Some(i) => {
            proof {
                lemma_find_key_some(acc.keys@, k);
            }
            Ok(#[verifier::truncate] (i as u32))
        },
        None => {
            if acc.keys.len() >= u32::MAX as usize {
                return Err(ObjError::new(ObjErrorKind::IndexOutOfRange, "vertex slots exhausted"));
            }
            let pi = c.pos_i as usize;
            if pi == 0 || pi > scene.vert_pos.len() {
                return Err(ObjError::new(ObjErrorKind::IndexOutOfRange, "position"));
            }
            let ni = c.norm_i as usize;
            if ni == 0 || ni > scene.vert_norm.len() {
                return Err(ObjError::new(ObjErrorKind::IndexOutOfRange, "normal"));
            }
            let ti = c.tx_i as usize;
            if scene.vert_tx.len() > 0 && (ti == 0 || ti > scene.vert_tx.len()) {
                return Err(ObjError::new(ObjErrorKind::IndexOutOfRange, "texture"));
            }
            let slot = acc.keys.len() as u32;
            let p4 = &scene.vert_pos[pi - 1];
            acc.keys.push(k);
            acc.v_pos.push(Vector3 { x: p4.x.clone(), y: p4.y.clone(), z: p4.z.clone() });
            acc.v_norm.push(clone_v3(&scene.vert_norm[ni - 1]));
            if scene.vert_tx.len() > 0 {
                acc.v_tx.push(clone_v2(&scene.vert_tx[ti - 1]));
            }
            proof {
                let m2 = spec_add_corner(mesh_view(*old(acc)), *c, scene@)->Ok_0.0;
                assert(mesh_view(*acc).keys =~= m2.keys);
                assert(mesh_view(*acc).v_pos =~= m2.v_pos);
                assert(mesh_view(*acc).v_norm =~= m2.v_norm);
                assert(mesh_view(*acc).v_tx =~= m2.v_tx);
                assert(mesh_view(*acc) =~~= m2);
            }
            Ok(slot)
        },
    }
}

// ----------------------------------------------------------- exec: renderer

/// Convert a parsed scene into one renderable per group, preserving group
/// order.
pub fn obj_to_renderable(scene: &ObjScene) -> (r: Result<Vec<ObjRenderable>, ObjError>)
    ensures
        (match r {
            Ok(objs) => {
                &&& spec_obj_to_renderable(scene@) is Ok
                &&& objs@.len() == spec_obj_to_renderable(scene@)->Ok_0.len()
                &&& forall|i: int|
                    0 <= i < objs@.len() ==> objs@[i]@ == spec_obj_to_renderable(scene@)->Ok_0[i]
            },
            Err(e) => spec_obj_to_renderable(scene@) == Err::<Seq<RenderableView>, ObjErrorKind>(
                e.kind,
            ),
        }),
{
    let ghost sv = scene@;
    let mut objs: Vec<ObjRenderable> = Vec::new();
    let ghost mut done: Seq<RenderableView> = Seq::empty();
    let mut gi: usize = 0;
    proof {
        let res = spec_renderables(sv, 0);
        if res is Ok {
            assert(done + res->Ok_0 =~= res->Ok_0);
        }
    }
    while gi < scene.grps.len()
        invariant
            gi <= scene.grps.len(),
            sv == scene@,
            objs@.len() == done.len(),
            forall|i: int| 0 <= i < done.len() ==> objs@[i]@ == done[i],
            spec_renderables(sv, 0) == (match spec_renderables(sv, gi as int) {
                Ok(rest) => Ok::<Seq<RenderableView>, ObjErrorKind>(done + rest),
                Err(k) => Err::<Seq<RenderableView>, ObjErrorKind>(k),
            }),
        decreases scene.grps.len() - gi,
    {
        let grp = &scene.grps[gi];
        let ghost gv = sv.grps[gi as int];
        proof {
            assert(gv == grp@);
        }
        let mut acc = MeshAcc {
            keys: Vec::new(),
            v_pos: Vec::new(),
            v_norm: Vec::new(),
            v_tx: Vec::new(),
            inds: Vec::new(),
        };
        proof {
            assert(mesh_view(acc) =~~= empty_mesh());
        }
        let mut fi: usize = 0;
        while fi < grp.faces.len()
            invariant
                fi <= grp.faces.len(),
                sv == scene@,
                gv == grp@,
                grp.faces@.len() == gv.faces.len(),
                0 <= gi < sv.grps.len(),
                gv == sv.grps[gi as int],
                spec_renderables(sv, 0) == (match spec_renderables(sv, gi as int) {
                    Ok(rest) => Ok::<Seq<RenderableView>, ObjErrorKind>(done + rest),
                    Err(k) => Err::<Seq<RenderableView>, ObjErrorKind>(k),
                }),
                spec_group_mesh(empty_mesh(), gv.faces, 0, sv) == spec_group_mesh(
                    mesh_view(acc),
                    gv.faces,
                    fi as int,
                    sv,
                ),
            decreases grp.faces.len() - fi,
        {
            let ghost m_f = mesh_view(acc);
            let face = &grp.faces[fi];
            let ghost fcs = gv.faces[fi as int];
            proof {
                assert(fcs =~= face.corners@);
            }
            let nc = face.corners.len();
            if nc >= 3 {
                let mut i: usize = 1;
                while i + 1 < nc
                    invariant
                        1 <= i,
                        i + 1 <= nc,
                        nc == face.corners.len(),
                        3 <= nc,
                        sv == scene@,
                        fcs == face.corners@,
                        spec_face_mesh(m_f, fcs, 1, sv) == spec_face_mesh(mesh_view(acc), fcs, i as int, sv),
                        0 <= fi < gv.faces.len(),
                        fcs == gv.faces[fi as int],
                        spec_group_mesh(empty_mesh(), gv.faces, 0, sv) == spec_group_mesh(
                            m_f,
                            gv.faces,
                            fi as int,
                            sv,
                        ),
                        0 <= gi < sv.grps.len(),
                        gv == sv.grps[gi as int],
                        spec_renderables(sv, 0) == (match spec_renderables(sv, gi as int) {
                            Ok(rest) => Ok::<Seq<RenderableView>, ObjErrorKind>(done + rest),
                            Err(k) => Err::<Seq<RenderableView>, ObjErrorKind>(k),
                        }),
                    decreases nc - i,
                {
                    let ghost m_t = mesh_view(acc);
                    let a = match add_corner(&mut acc, &face.corners[0], scene) {
                        Ok(v) => v,
                        Err(e) => {
                            proof {
                                lemma_error_bubbles(m_f, m_t, fcs, gv, sv, i as int, fi as int, gi as int, done, e.kind);
                            }
                            return Err(e);
                        },
                    };
                    let b = match add_corner(&mut acc, &face.corners[i], scene) {
                        Ok(v) => v,
                        Err(e) => {
                            proof {
                                lemma_error_bubbles(m_f, m_t, fcs, gv, sv, i as int, fi as int, gi as int, done, e.kind);
                            }
                            return Err(e);
                        },
                    };
                    let c = match add_corner(&mut acc, &face.corners[i + 1], scene) {
                        Ok(v) => v,
                        Err(e) => {
                            proof {
                                lemma_error_bubbles(m_f, m_t, fcs, gv, sv, i as int, fi as int, gi as int, done, e.kind);
                            }
                            return Err(e);
                        },
                    };
                    acc.inds.push(Triangle { a, b, c });
                    proof {
                        let m3 = spec_tri(m_t, fcs[0], fcs[i as int], fcs[i as int + 1], sv)->Ok_0;
                        assert(mesh_view(acc) =~~= m3);
                    }
                    i += 1;
                }
            } else {
                proof {
                    assert(spec_face_mesh(mesh_view(acc), fcs, 1, sv) == Ok::<MeshView, ObjErrorKind>(mesh_view(acc)));
                }
            }
            proof {
                assert(spec_face_mesh(mesh_view(acc), fcs, (nc - 1) as int, sv) == Ok::<
                    MeshView,
                    ObjErrorKind,
                >(mesh_view(acc)));
            }
            fi += 1;
        }
        let rend = ObjRenderable {
            name: grp.name.clone(),
            mat_name: clone_opt_string(&grp.mat),
            v_pos: acc.v_pos,
            v_norm: acc.v_norm,
            v_tx: acc.v_tx,
            inds: acc.inds,
        };
        objs.push(rend);
        proof {
            let rv = spec_group_renderable(gv, sv)->Ok_0;
            assert(objs@[objs@.len() - 1]@ =~~= rv);
            let res1 = spec_renderables(sv, gi as int + 1);
            if res1 is Ok {
                assert(done + (seq![rv] + res1->Ok_0) =~= done.push(rv) + res1->Ok_0);
            }
            done = done.push(rv);
        }
        gi += 1;
    }
    proof {
        assert(spec_renderables(sv, gi as int) == Ok::<Seq<RenderableView>, ObjErrorKind>(
            Seq::empty(),
        ));
        assert(done + Seq::<RenderableView>::empty() =~= done);
    }
    Ok(objs)
}

// --------------------------------------------------------------------- laws

/// The buffers of a well-formed renderable run in parallel: positions and
/// normals are equally many, the texture buffer is empty or as long, and
/// every triangle indexes inside the buffers.
pub open spec fn renderable_wf(r: RenderableView) -> bool {
    &&& r.v_pos.len() == r.v_norm.len()
    &&& (r.v_tx.len() == 0 || r.v_tx.len() == r.v_pos.len())
    &&& forall|i: int|
        0 <= i < r.inds.len() ==> (#[trigger] r.inds[i]).a < r.v_pos.len() && r.inds[i].b
            < r.v_pos.len() && r.inds[i].c < r.v_pos.len()
}

/// No key appears twice: every composite index triple owns one slot.
pub open spec fn keys_distinct(keys: Seq<CornerKey>) -> bool {
    forall|i: int, j: int| 0 <= i < j < keys.len() ==> keys[i] != keys[j]
}

/// The engine's invariant over its accumulator.
pub open spec fn mesh_wf(m: MeshView, sv: SceneView) -> bool {
    &&& m.keys.len() == m.v_pos.len()
    &&& m.v_pos.len() == m.v_norm.len()
    &&& (sv.vert_tx.len() > 0 ==> m.v_tx.len() == m.v_pos.len())
    &&& (sv.vert_tx.len() == 0 ==> m.v_tx.len() == 0)
    &&& keys_distinct(m.keys)
    &&& forall|i: int|
        0 <= i < m.inds.len() ==> (#[trigger] m.inds[i]).a < m.keys.len() && m.inds[i].b
            < m.keys.len() && m.inds[i].c < m.keys.len()
}

/// An absent find result means the key is absent.
proof fn lemma_find_key_none(keys: Seq<CornerKey>, k: CornerKey)
    requires
        spec_find_key(keys, k) is None,
    ensures
        forall|j: int| 0 <= j < keys.len() ==> keys[j] != k,
    decreases keys.len(),
{
    if keys.len() == 0 {
    } else if keys[0] == k {
    } else {
        lemma_find_key_none(keys.drop_first(), k);
        assert forall|j: int| 0 <= j < keys.len() implies keys[j] != k by {
            if j >= 1 {
                assert(keys.drop_first()[j - 1] == keys[j]);
            }
        }
    }
}

proof fn lemma_add_corner_wf(m: MeshView, c: ObjFaceCorner, sv: SceneView)
    requires
        mesh_wf(m, sv),
        spec_add_corner(m, c, sv) is Ok,
    ensures
        mesh_wf(spec_add_corner(m, c, sv)->Ok_0.0, sv),
        spec_add_corner(m, c, sv)->Ok_0.0.inds == m.inds,
        m.keys.len() <= spec_add_corner(m, c, sv)->Ok_0.0.keys.len(),
        spec_add_corner(m, c, sv)->Ok_0.1 < spec_add_corner(m, c, sv)->Ok_0.0.keys.len(),
{
    let k = key_of(c);
    match spec_find_key(m.keys, k) {
        Some(i) => {
            lemma_find_key_some(m.keys, k);
        },
        None => {
            lemma_find_key_none(m.keys, k);
            let m2 = spec_add_corner(m, c, sv)->Ok_0.0;
            assert forall|i: int, j: int| 0 <= i < j < m2.keys.len() implies m2.keys[i]
                != m2.keys[j] by {
                if j < m.keys.len() {
                } else {
                    assert(m2.keys[j] == k);
                    assert(m2.keys[i] == m.keys[i]);
                }
            }
        },
    }
}

proof fn lemma_tri_wf(m: MeshView, c0: ObjFaceCorner, c1: ObjFaceCorner, c2: ObjFaceCorner, sv: SceneView)
    requires
        mesh_wf(m, sv),
        spec_tri(m, c0, c1, c2, sv) is Ok,
    ensures
        mesh_wf(spec_tri(m, c0, c1, c2, sv)->Ok_0, sv),
{
    lemma_add_corner_wf(m, c0, sv);
    let m1 = spec_add_corner(m, c0, sv)->Ok_0.0;
    lemma_add_corner_wf(m1, c1, sv);
    let m2 = spec_add_corner(m1, c1, sv)->Ok_0.0;
    lemma_add_corner_wf(m2, c2, sv);
    let m3 = spec_add_corner(m2, c2, sv)->Ok_0.0;
    let out = spec_tri(m, c0, c1, c2, sv)->Ok_0;
    assert forall|i: int| 0 <= i < out.inds.len() implies (#[trigger] out.inds[i]).a
        < out.keys.len() && out.inds[i].b < out.keys.len() && out.inds[i].c < out.keys.len() by {
        if i < m3.inds.len() {
            assert(out.inds[i] == m3.inds[i]);
        }
    }
}

proof fn lemma_face_wf(m: MeshView, corners: Seq<ObjFaceCorner>, i: int, sv: SceneView)
    requires
        mesh_wf(m, sv),
        spec_face_mesh(m, corners, i, sv) is Ok,
    ensures
        mesh_wf(spec_face_mesh(m, corners, i, sv)->Ok_0, sv),
    decreases corners.len() - i,
{
    if corners.len() < 3 || i < 1 || i + 1 >= corners.len() {
    } else {
        lemma_tri_wf(m, corners[0], corners[i], corners[i + 1], sv);
        lemma_face_wf(spec_tri(m, corners[0], corners[i], corners[i + 1], sv)->Ok_0, corners, i + 1, sv);
    }
}

proof fn lemma_group_wf(m: MeshView, faces: Seq<Seq<ObjFaceCorner>>, j: int, sv: SceneView)
    requires
        mesh_wf(m, sv),
        spec_group_mesh(m, faces, j, sv) is Ok,
    ensures
        mesh_wf(spec_group_mesh(m, faces, j, sv)->Ok_0, sv),
    decreases faces.len() - j,
{
    if j >= faces.len() {
    } else {
        lemma_face_wf(m, faces[j], 1, sv);
        lemma_group_wf(spec_face_mesh(m, faces[j], 1, sv)->Ok_0, faces, j + 1, sv);
    }
}

/// Deduplication within one group: when a group converts, the key list the
/// engine built is free of repeats (each distinct composite index triple
/// owns exactly one slot), and its well-formedness carries to the mesh.
pub proof fn lemma_group_mesh_wf(g: crate::obj::GroupView, sv: SceneView)
    ensures
        spec_group_mesh(empty_mesh(), g.faces, 0, sv) is Ok ==> mesh_wf(
            spec_group_mesh(empty_mesh(), g.faces, 0, sv)->Ok_0,
            sv,
        ),
{
    if spec_group_mesh(empty_mesh(), g.faces, 0, sv) is Ok {
        lemma_group_wf(empty_mesh(), g.faces, 0, sv);
    }
}

proof fn lemma_renderables_wf_from(sv: SceneView, j: int)
    requires
        spec_renderables(sv, j) is Ok,
    ensures
        forall|i: int|
            0 <= i < spec_renderables(sv, j)->Ok_0.len() ==> renderable_wf(
                #[trigger] spec_renderables(sv, j)->Ok_0[i],
            ),
    decreases sv.grps.len() - j,
{
    if j >= sv.grps.len() {
    } else {
        let r = spec_group_renderable(sv.grps[j], sv)->Ok_0;
        lemma_group_mesh_wf(sv.grps[j], sv);
        let m = spec_group_mesh(empty_mesh(), sv.grps[j].faces, 0, sv)->Ok_0;
        assert forall|i: int| 0 <= i < r.inds.len() implies (#[trigger] r.inds[i]).a
            < r.v_pos.len() && r.inds[i].b < r.v_pos.len() && r.inds[i].c < r.v_pos.len() by {
            assert(r.inds[i] == m.inds[i]);
        }
        assert(renderable_wf(r));
        lemma_renderables_wf_from(sv, j + 1);
        let whole = spec_renderables(sv, j)->Ok_0;
        let rest = spec_renderables(sv, j + 1)->Ok_0;
        assert forall|i: int| 0 <= i < whole.len() implies renderable_wf(#[trigger] whole[i]) by {
            if i == 0 {
                assert(whole[0] == r);
            } else {
                assert(whole[i] == rest[i - 1]);
            }
        }
    }
}

/// Every renderable a scene converts to is well formed: positions and
/// normals are equally many, the texture buffer is empty or of the same
/// length, and every triangle index addresses an existing slot.
pub proof fn lemma_renderables_well_formed(sv: SceneView)
    ensures
        spec_obj_to_renderable(sv) is Ok ==> forall|i: int|
            0 <= i < spec_obj_to_renderable(sv)->Ok_0.len() ==> renderable_wf(
                #[trigger] spec_obj_to_renderable(sv)->Ok_0[i],
            ),
{
    if spec_obj_to_renderable(sv) is Ok {
        lemma_renderables_wf_from(sv, 0);
    }
}

/// One renderable per surviving group, in group order.
pub proof fn lemma_one_renderable_per_group(sv: SceneView)
    ensures
        spec_obj_to_renderable(sv) is Ok ==> spec_obj_to_renderable(sv)->Ok_0.len()
            == sv.grps.len(),
{
    lemma_renderables_len_from(sv, 0);
}

proof fn lemma_renderables_len_from(sv: SceneView, j: int)
    ensures
        spec_renderables(sv, j) is Ok && j <= sv.grps.len() ==> spec_renderables(sv, j)->Ok_0.len()
            == sv.grps.len() - j,
    decreases sv.grps.len() - j,
{
    if j < sv.grps.len() {
        lemma_renderables_len_from(sv, j + 1);
    }
}

/// Fan triangulation emits one triangle per fan step: a face of `n >= 3`
/// corners that converts adds exactly `n - 2` triangles.
pub proof fn lemma_fan_triangle_count(m: MeshView, corners: Seq<ObjFaceCorner>, sv: SceneView)
    requires
        corners.len() >= 3,
        spec_face_mesh(m, corners, 1, sv) is Ok,
    ensures
        spec_face_mesh(m, corners, 1, sv)->Ok_0.inds.len() == m.inds.len() + corners.len() - 2,
{
    lemma_fan_count_from(m, corners, 1, sv);
}

proof fn lemma_fan_count_from(m: MeshView, corners: Seq<ObjFaceCorner>, i: int, sv: SceneView)
    requires
        corners.len() >= 3,
        1 <= i <= corners.len() - 1,
        spec_face_mesh(m, corners, i, sv) is Ok,
    ensures
        spec_face_mesh(m, corners, i, sv)->Ok_0.inds.len() == m.inds.len() + (corners.len() - 1
            - i),
    decreases corners.len() - i,
{
    if i + 1 >= corners.len() {
    } else {
        let m2 = spec_tri(m, corners[0], corners[i], corners[i + 1], sv)->Ok_0;
        assert(m2.inds.len() == m.inds.len() + 1);
        lemma_fan_count_from(m2, corners, i + 1, sv);
    }
}

/// Every scalar token in the renderable's buffers is a valid number.
pub open spec fn renderable_tokens_valid(r: RenderableView) -> bool {
    &&& forall|i: int|
        0 <= i < r.v_pos.len() ==> crate::obj::vec3_tokens_valid(#[trigger] r.v_pos[i])
    &&& forall|i: int|
        0 <= i < r.v_norm.len() ==> crate::obj::vec3_tokens_valid(#[trigger] r.v_norm[i])
    &&& forall|i: int| 0 <= i < r.v_tx.len() ==> crate::obj::vec2_tokens_valid(#[trigger] r.v_tx[i])
}

spec fn mesh_tokens_valid(m: MeshView) -> bool {
    &&& forall|i: int|
        0 <= i < m.v_pos.len() ==> crate::obj::vec3_tokens_valid(#[trigger] m.v_pos[i])
    &&& forall|i: int|
        0 <= i < m.v_norm.len() ==> crate::obj::vec3_tokens_valid(#[trigger] m.v_norm[i])
    &&& forall|i: int| 0 <= i < m.v_tx.len() ==> crate::obj::vec2_tokens_valid(#[trigger] m.v_tx[i])
}

proof fn lemma_add_corner_tokens(m: MeshView, c: ObjFaceCorner, sv: SceneView)
    requires
        crate::obj::scene_tokens_valid(sv),
        mesh_tokens_valid(m),
        spec_add_corner(m, c, sv) is Ok,
    ensures
        mesh_tokens_valid(spec_add_corner(m, c, sv)->Ok_0.0),
{
    let m2 = spec_add_corner(m, c, sv)->Ok_0.0;
    assert forall|i: int| 0 <= i < m2.v_pos.len() implies crate::obj::vec3_tokens_valid(
        #[trigger] m2.v_pos[i],
    ) by {
        if i < m.v_pos.len() {
            assert(crate::obj::vec3_tokens_valid(m.v_pos[i]));
        } else {
            assert(crate::obj::vec4_tokens_valid(sv.vert_pos[c.pos_i - 1]));
        }
    }
    assert forall|i: int| 0 <= i < m2.v_norm.len() implies crate::obj::vec3_tokens_valid(
        #[trigger] m2.v_norm[i],
    ) by {
        if i < m.v_norm.len() {
            assert(crate::obj::vec3_tokens_valid(m.v_norm[i]));
        } else {
            assert(crate::obj::vec3_tokens_valid(sv.vert_norm[c.norm_i - 1]));
        }
    }
    assert forall|i: int| 0 <= i < m2.v_tx.len() implies crate::obj::vec2_tokens_valid(
        #[trigger] m2.v_tx[i],
    ) by {
        if i < m.v_tx.len() {
            assert(crate::obj::vec2_tokens_valid(m.v_tx[i]));
        } else {
            assert(crate::obj::vec2_tokens_valid(sv.vert_tx[c.tx_i - 1]));
        }
    }
}

proof fn lemma_tri_tokens(m: MeshView, c0: ObjFaceCorner, c1: ObjFaceCorner, c2: ObjFaceCorner, sv: SceneView)
    requires
        crate::obj::scene_tokens_valid(sv),
        mesh_tokens_valid(m),
        spec_tri(m, c0, c1, c2, sv) is Ok,
    ensures
        mesh_tokens_valid(spec_tri(m, c0, c1, c2, sv)->Ok_0),
{
    lemma_add_corner_tokens(m, c0, sv);
    let m1 = spec_add_corner(m, c0, sv)->Ok_0.0;
    lemma_add_corner_tokens(m1, c1, sv);
    let m2 = spec_add_corner(m1, c1, sv)->Ok_0.0;
    lemma_add_corner_tokens(m2, c2, sv);
}

proof fn lemma_face_tokens(m: MeshView, corners: Seq<ObjFaceCorner>, i: int, sv: SceneView)
    requires
        crate::obj::scene_tokens_valid(sv),
        mesh_tokens_valid(m),
        spec_face_mesh(m, corners, i, sv) is Ok,
    ensures
        mesh_tokens_valid(spec_face_mesh(m, corners, i, sv)->Ok_0),
    decreases corners.len() - i,
{
    if corners.len() < 3 || i < 1 || i + 1 >= corners.len() {
    } else {
        lemma_tri_tokens(m, corners[0], corners[i], corners[i + 1], sv);
        lemma_face_tokens(spec_tri(m, corners[0], corners[i], corners[i + 1], sv)->Ok_0, corners, i + 1, sv);
    }
}

proof fn lemma_group_tokens(m: MeshView, faces: Seq<Seq<ObjFaceCorner>>, j: int, sv: SceneView)
    requires
        crate::obj::scene_tokens_valid(sv),
        mesh_tokens_valid(m),
        spec_group_mesh(m, faces, j, sv) is Ok,
    ensures
        mesh_tokens_valid(spec_group_mesh(m, faces, j, sv)->Ok_0),
    decreases faces.len() - j,
{
    if j >= faces.len() {
    } else {
        lemma_face_tokens(m, faces[j], 1, sv);
        lemma_group_tokens(spec_face_mesh(m, faces[j], 1, sv)->Ok_0, faces, j + 1, sv);
    }
}

proof fn lemma_renderables_tokens_from(sv: SceneView, j: int)
    requires
        crate::obj::scene_tokens_valid(sv),
        spec_renderables(sv, j) is Ok,
    ensures
        forall|i: int|
            0 <= i < spec_renderables(sv, j)->Ok_0.len() ==> renderable_tokens_valid(
                #[trigger] spec_renderables(sv, j)->Ok_0[i],
            ),
    decreases sv.grps.len() - j,
{
    if j >= sv.grps.len() {
    } else {
        lemma_group_tokens(empty_mesh(), sv.grps[j].faces, 0, sv);
        let r = spec_group_renderable(sv.grps[j], sv)->Ok_0;
        assert(renderable_tokens_valid(r));
        lemma_renderables_tokens_from(sv, j + 1);
        let whole = spec_renderables(sv, j)->Ok_0;
        let rest = spec_renderables(sv, j + 1)->Ok_0;
        assert forall|i: int| 0 <= i < whole.len() implies renderable_tokens_valid(
            #[trigger] whole[i],
        ) by {
            if i == 0 {
                assert(whole[0] == r);
            } else {
                assert(whole[i] == rest[i - 1]);
            }
        }
    }
}

/// When the scene's scalar tokens are valid numbers, so is every token of
/// every renderable it converts to: the engine only copies pool entries.
pub proof fn lemma_renderables_tokens_valid(sv: SceneView)
    ensures
        crate::obj::scene_tokens_valid(sv) && spec_obj_to_renderable(sv) is Ok ==> forall|i: int|
            0 <= i < spec_obj_to_renderable(sv)->Ok_0.len() ==> renderable_tokens_valid(
                #[trigger] spec_obj_to_renderable(sv)->Ok_0[i],
            ),
{
    if crate::obj::scene_tokens_valid(sv) && spec_obj_to_renderable(sv) is Ok {
        lemma_renderables_tokens_from(sv, 0);
    }
}

/// An error inside one fan step is the whole conversion's error.
proof fn lemma_error_bubbles(
    m_f: MeshView,
    m_t: MeshView,
    fcs: Seq<ObjFaceCorner>,
    gv: crate::obj::GroupView,
    sv: SceneView,
    i: int,
    fi: int,
    gi: int,
    done: Seq<RenderableView>,
    k: ObjErrorKind,
)
    requires
        3 <= fcs.len(),
        1 <= i,
        i + 1 < fcs.len(),
        spec_tri(m_t, fcs[0], fcs[i], fcs[i + 1], sv) == Err::<MeshView, ObjErrorKind>(k),
        spec_face_mesh(m_f, fcs, 1, sv) == spec_face_mesh(m_t, fcs, i, sv),
        0 <= fi < gv.faces.len(),
        fcs == gv.faces[fi],
        spec_group_mesh(empty_mesh(), gv.faces, 0, sv) == spec_group_mesh(m_f, gv.faces, fi, sv),
        0 <= gi < sv.grps.len(),
        gv == sv.grps[gi],
        spec_renderables(sv, 0) == (match spec_renderables(sv, gi) {
            Ok(rest) => Ok::<Seq<RenderableView>, ObjErrorKind>(done + rest),
            Err(kk) => Err::<Seq<RenderableView>, ObjErrorKind>(kk),
        }),
    ensures
        spec_renderables(sv, 0) == Err::<Seq<RenderableView>, ObjErrorKind>(k),
{
    assert(spec_face_mesh(m_t, fcs, i, sv) == Err::<MeshView, ObjErrorKind>(k));
    assert(spec_group_mesh(m_f, gv.faces, fi, sv) == Err::<MeshView, ObjErrorKind>(k));
    assert(spec_group_renderable(gv, sv) == Err::<RenderableView, ObjErrorKind>(k));
    assert(spec_renderables(sv, gi) == Err::<Seq<RenderableView>, ObjErrorKind>(k));
}

} // verus!
