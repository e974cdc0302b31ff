//! The OBJ raw parser: line by line, each directive either grows the vertex
//! pools, shapes the current group, or is silently ignored (unknown OBJ
//! directives are tolerated for forward compatibility).

use vstd::prelude::*;
use vstd::string::StrSliceExecFns;

use crate::error::{ObjError, ObjErrorKind};
use crate::numtok::{is_float_token, is_uint_token, uint_token_val, check_float, parse_uint};
use crate::obj::{
    GroupView, ObjFace, ObjFaceCorner, ObjGroup, ObjScene, SceneView, Vector2, Vector2View,
    Vector3, Vector3View, Vector4, Vector4View,
};
use crate::obj_renderable::{
    obj_to_renderable, spec_obj_to_renderable, ObjRenderable, RenderableView,
};
use crate::text::{
    find_char, lemma_find_char_is, line_tokens, spec_line_tokens, spec_lines, split_lines, str_eq,
    tok_views,
};

verus! {

// -------------------------------------------------------------- spec: corner

/// What one corner token of an `f` directive parses to: the segments are
/// separated by `/`, the first must be an unsigned index, and a missing or
/// unparsable texture or normal sub-index falls back to the position index.
pub open spec fn spec_corner(t: Seq<char>, smooth_i: Option<u32>) -> Result<
    ObjFaceCorner,
    ObjErrorKind,
> {
    let i = find_char(t, '/');
    let seg0 = t.take(i);
    if !is_uint_token(seg0) {
        Err(ObjErrorKind::MalformedNumber)
    } else {
        let p = uint_token_val(seg0) as u32;
        let tx_i = if i == t.len() {
            p
        } else {
            let r1 = t.skip(i + 1);
            let seg1 = r1.take(find_char(r1, '/'));
            if is_uint_token(seg1) {
                uint_token_val(seg1) as u32
            } else {
                p
            }
        };
        let norm_i = if i == t.len() {
            p
        } else {
            let r1 = t.skip(i + 1);
            let j = find_char(r1, '/');
            if j == r1.len() {
                p
            } else {
                let r2 = r1.skip(j + 1);
                let seg2 = r2.take(find_char(r2, '/'));
                if is_uint_token(seg2) {
                    uint_token_val(seg2) as u32
                } else {
                    p
                }
            }
        };
        Ok(ObjFaceCorner { smooth_i, pos_i: p, norm_i, tx_i })
    }
}

/// The corners of an `f` directive, parsed from token `i` onward.
pub open spec fn spec_corners(
    toks: Seq<Seq<char>>,
    i: int,
    smooth_i: Option<u32>,
) -> Result<Seq<ObjFaceCorner>, ObjErrorKind>
    decreases toks.len() - i,
{
    if i >= toks.len() {
        Ok(Seq::empty())
    } else {
        match spec_corner(toks[i], smooth_i) {
            Err(k) => Err(k),
            Ok(c) => match spec_corners(toks, i + 1, smooth_i) {
                Err(k) => Err(k),
                Ok(rest) => Ok(seq![c] + rest),
            },
        }
    }
}

// ------------------------------------------------------------ spec: vertices

/// What a `v` line yields: three floats and an optional `w` that defaults
/// to 1 when omitted.
pub open spec fn spec_parse_v(toks: Seq<Seq<char>>) -> Result<Vector4View, ObjErrorKind> {
    if toks.len() < 2 {
        Err(ObjErrorKind::MissingArgument)
    } else if !is_float_token(toks[1]) {
        Err(ObjErrorKind::MalformedNumber)
    } else if toks.len() < 3 {
        Err(ObjErrorKind::MissingArgument)
    } else if !is_float_token(toks[2]) {
        Err(ObjErrorKind::MalformedNumber)
    } else if toks.len() < 4 {
        Err(ObjErrorKind::MissingArgument)
    } else if !is_float_token(toks[3]) {
        Err(ObjErrorKind::MalformedNumber)
    } else if toks.len() < 5 {
        Ok(Vector4View { x: toks[1], y: toks[2], z: toks[3], w: "1"@ })
    } else if !is_float_token(toks[4]) {
        Err(ObjErrorKind::MalformedNumber)
    } else {
        Ok(Vector4View { x: toks[1], y: toks[2], z: toks[3], w: toks[4] })
    }
}

/// What a `vt` line yields: two floats.
pub open spec fn spec_parse_vt(toks: Seq<Seq<char>>) -> Result<Vector2View, ObjErrorKind> {
    if toks.len() < 2 {
        Err(ObjErrorKind::MissingArgument)
    } else if !is_float_token(toks[1]) {
        Err(ObjErrorKind::MalformedNumber)
    } else if toks.len() < 3 {
        Err(ObjErrorKind::MissingArgument)
    } else if !is_float_token(toks[2]) {
        Err(ObjErrorKind::MalformedNumber)
    } else {
        Ok(Vector2View { x: toks[1], y: toks[2] })
    }
}

/// What a `vn` line yields: three floats.
pub open spec fn spec_parse_vn(toks: Seq<Seq<char>>) -> Result<Vector3View, ObjErrorKind> {
    if toks.len() < 2 {
        Err(ObjErrorKind::MissingArgument)
    } else if !is_float_token(toks[1]) {
        Err(ObjErrorKind::MalformedNumber)
    } else if toks.len() < 3 {
        Err(ObjErrorKind::MissingArgument)
    } else if !is_float_token(toks[2]) {
        Err(ObjErrorKind::MalformedNumber)
    } else if toks.len() < 4 {
        Err(ObjErrorKind::MissingArgument)
    } else if !is_float_token(toks[3]) {
        Err(ObjErrorKind::MalformedNumber)
    } else {
        Ok(Vector3View { x: toks[1], y: toks[2], z: toks[3] })
    }
}

// --------------------------------------------------------------- spec: lines

/// The parser's accumulator: the scene so far, the group being filled, and
/// the smoothing-group context the last `s` directive set.
#[verifier::ext_equal]
pub struct LoaderView {
    pub scene: SceneView,
    pub group: GroupView,
    pub smooth_i: Option<u32>,
}

pub open spec fn init_loader() -> LoaderView {
    LoaderView {
        scene: SceneView {
            vert_pos: Seq::empty(),
            vert_norm: Seq::empty(),
            vert_tx: Seq::empty(),
            grps: Seq::empty(),
        },
        group: GroupView { name: Seq::empty(), mat: None, faces: Seq::empty() },
        smooth_i: None,
    }
}

/// What one OBJ line does to the parser state. A line with no tokens after
/// comment stripping does nothing; an unrecognized directive also does
/// nothing, by design.
pub open spec fn spec_obj_line(st: LoaderView, l: Seq<char>) -> Result<LoaderView, ObjErrorKind> {
    let toks = spec_line_tokens(l);
    if toks.len() == 0 {
        Ok(st)
    } else {
        let w = toks[0];
        if w == "v"@ {
            match spec_parse_v(toks) {
                Ok(p) => Ok(
                    LoaderView {
                        scene: SceneView { vert_pos: st.scene.vert_pos.push(p), ..st.scene },
                        ..st
                    },
                ),
                Err(k) => Err(k),
            }
        } else if w == "vt"@ {
            match spec_parse_vt(toks) {
                Ok(p) => Ok(
                    LoaderView {
                        scene: SceneView { vert_tx: st.scene.vert_tx.push(p), ..st.scene },
                        ..st
                    },
                ),
                Err(k) => Err(k),
            }
        } else if w == "vn"@ {
            match spec_parse_vn(toks) {
                Ok(p) => Ok(
                    LoaderView {
                        scene: SceneView { vert_norm: st.scene.vert_norm.push(p), ..st.scene },
                        ..st
                    },
                ),
                Err(k) => Err(k),
            }
        } else if w == "usemtl"@ {
            if toks.len() < 2 {
                Err(ObjErrorKind::MissingArgument)
            } else {
                Ok(LoaderView { group: GroupView { mat: Some(toks[1]), ..st.group }, ..st })
            }
        } else if w == "g"@ {
            if toks.len() < 2 {
                Err(ObjErrorKind::MissingArgument)
            } else {
                let scene = if st.group.faces.len() > 0 {
                    SceneView { grps: st.scene.grps.push(st.group), ..st.scene }
                } else {
                    st.scene
                };
                Ok(
                    LoaderView {
                        scene,
                        group: GroupView { name: toks[1], mat: None, faces: Seq::empty() },
                        smooth_i: st.smooth_i,
                    },
                )
            }
        } else if w == "s"@ {
            if toks.len() < 2 {
                Ok(LoaderView { smooth_i: None, ..st })
            } else if toks[1] == "off"@ {
                Ok(LoaderView { smooth_i: None, ..st })
            } else if is_uint_token(toks[1]) {
                Ok(LoaderView { smooth_i: Some(uint_token_val(toks[1]) as u32), ..st })
            } else {
                Err(ObjErrorKind::MalformedNumber)
            }
        } else if w == "f"@ {
            match spec_corners(toks, 1, st.smooth_i) {
                Ok(cs) => Ok(
                    LoaderView {
                        group: GroupView { faces: st.group.faces.push(cs), ..st.group },
                        ..st
                    },
                ),
                Err(k) => Err(k),
            }
        } else {
            Ok(st)
        }
    }
}

/// Fold of the line step over the lines from index `i` onward; the first
/// failing line aborts the whole parse.
pub open spec fn spec_obj_lines(
    st: LoaderView,
    lines: Seq<Seq<char>>,
    i: int,
) -> Result<LoaderView, ObjErrorKind>
    decreases lines.len() - i,
{
    if i >= lines.len() {
        Ok(st)
    } else {
        match spec_obj_line(st, lines[i]) {
            Ok(st2) => spec_obj_lines(st2, lines, i + 1),
            Err(k) => Err(k),
        }
    }
}

/// The final flush: a current group with at least one face joins the scene.
pub open spec fn spec_finish(st: LoaderView) -> SceneView {
    if st.group.faces.len() > 0 {
        SceneView { grps: st.scene.grps.push(st.group), ..st.scene }
    } else {
        st.scene
    }
}

/// What parsing a whole OBJ text yields.
pub open spec fn spec_obj_load_raw(s: Seq<char>) -> Result<SceneView, ObjErrorKind> {
    match spec_obj_lines(init_loader(), spec_lines(s), 0) {
        Ok(st) => Ok(spec_finish(st)),
        Err(k) => Err(k),
    }
}

/// What loading a whole OBJ text yields: the renderables of its groups.
pub open spec fn spec_obj_load(s: Seq<char>) -> Result<Seq<RenderableView>, ObjErrorKind> {
    match spec_obj_load_raw(s) {
        Ok(scene) => spec_obj_to_renderable(scene),
        Err(k) => Err(k),
    }
}

// --------------------------------------------------------------------- laws

/// Every group of the scene holds at least one face.
pub open spec fn scene_groups_nonempty(sv: SceneView) -> bool {
    forall|i: int| 0 <= i < sv.grps.len() ==> (#[trigger] sv.grps[i]).faces.len() > 0
}

proof fn lemma_obj_line_groups(st: LoaderView, l: Seq<char>)
    requires
        spec_obj_line(st, l) is Ok,
        scene_groups_nonempty(st.scene),
    ensures
        scene_groups_nonempty(spec_obj_line(st, l)->Ok_0.scene),
{
    let st2 = spec_obj_line(st, l)->Ok_0;
    assert forall|i: int| 0 <= i < st2.scene.grps.len() implies (#[trigger] st2.scene.grps[i]).faces.len()
        > 0 by {
        if i < st.scene.grps.len() {
            assert(st.scene.grps[i].faces.len() > 0);
        }
    }
}

proof fn lemma_obj_lines_groups(st: LoaderView, lines: Seq<Seq<char>>, i: int)
    requires
        spec_obj_lines(st, lines, i) is Ok,
        scene_groups_nonempty(st.scene),
    ensures
        scene_groups_nonempty(spec_obj_lines(st, lines, i)->Ok_0.scene),
    decreases lines.len() - i,
{
    if i >= lines.len() {
    } else {
        lemma_obj_line_groups(st, lines[i]);
        lemma_obj_lines_groups(spec_obj_line(st, lines[i])->Ok_0, lines, i + 1);
    }
}

/// Empty groups vanish: a group that still had no face when the next `g`
/// directive, or the end of the text, arrived is discarded, so every group
/// of a parsed scene holds at least one face.
pub proof fn lemma_groups_nonempty(s: Seq<char>)
    ensures
        spec_obj_load_raw(s) is Ok ==> scene_groups_nonempty(spec_obj_load_raw(s)->Ok_0),
{
    if spec_obj_load_raw(s) is Ok {
        let st = spec_obj_lines(init_loader(), spec_lines(s), 0)->Ok_0;
        lemma_obj_lines_groups(init_loader(), spec_lines(s), 0);
        let out = spec_finish(st);
        assert forall|i: int| 0 <= i < out.grps.len() implies (#[trigger] out.grps[i]).faces.len()
            > 0 by {
            if i < st.scene.grps.len() {
                assert(st.scene.grps[i].faces.len() > 0);
            }
        }
    }
}

proof fn lemma_obj_line_tokens(st: LoaderView, l: Seq<char>)
    requires
        spec_obj_line(st, l) is Ok,
        crate::obj::scene_tokens_valid(st.scene),
    ensures
        crate::obj::scene_tokens_valid(spec_obj_line(st, l)->Ok_0.scene),
{
    crate::numtok::lemma_one_is_float_token();
    let sv2 = spec_obj_line(st, l)->Ok_0.scene;
    assert forall|i: int| 0 <= i < sv2.vert_pos.len() implies crate::obj::vec4_tokens_valid(
        #[trigger] sv2.vert_pos[i],
    ) by {
        if i < st.scene.vert_pos.len() {
            assert(crate::obj::vec4_tokens_valid(st.scene.vert_pos[i]));
        }
    }
    assert forall|i: int| 0 <= i < sv2.vert_norm.len() implies crate::obj::vec3_tokens_valid(
        #[trigger] sv2.vert_norm[i],
    ) by {
        if i < st.scene.vert_norm.len() {
            assert(crate::obj::vec3_tokens_valid(st.scene.vert_norm[i]));
        }
    }
    assert forall|i: int| 0 <= i < sv2.vert_tx.len() implies crate::obj::vec2_tokens_valid(
        #[trigger] sv2.vert_tx[i],
    ) by {
        if i < st.scene.vert_tx.len() {
            assert(crate::obj::vec2_tokens_valid(st.scene.vert_tx[i]));
        }
    }
}

proof fn lemma_obj_lines_tokens(st: LoaderView, lines: Seq<Seq<char>>, i: int)
    requires
        spec_obj_lines(st, lines, i) is Ok,
        crate::obj::scene_tokens_valid(st.scene),
    ensures
        crate::obj::scene_tokens_valid(spec_obj_lines(st, lines, i)->Ok_0.scene),
    decreases lines.len() - i,
{
    if i >= lines.len() {
    } else {
        lemma_obj_line_tokens(st, lines[i]);
        lemma_obj_lines_tokens(spec_obj_line(st, lines[i])->Ok_0, lines, i + 1);
    }
}

/// Every scalar token a parsed scene stores was checked against the float
/// grammar, so turning it into a machine float cannot fail.
pub proof fn lemma_scene_tokens_valid(s: Seq<char>)
    ensures
        spec_obj_load_raw(s) is Ok ==> crate::obj::scene_tokens_valid(spec_obj_load_raw(s)->Ok_0),
{
    if spec_obj_load_raw(s) is Ok {
        lemma_obj_lines_tokens(init_loader(), spec_lines(s), 0);
        let st = spec_obj_lines(init_loader(), spec_lines(s), 0)->Ok_0;
        assert(spec_finish(st).vert_pos == st.scene.vert_pos);
        assert(spec_finish(st).vert_norm == st.scene.vert_norm);
        assert(spec_finish(st).vert_tx == st.scene.vert_tx);
    }
}

/// For every OBJ text that loads, every renderable is well formed:
/// positions and normals are equally many, the texture buffer is empty or
/// of that same length, and every triangle index addresses a slot.
pub proof fn lemma_loaded_renderables_well_formed(s: Seq<char>)
    ensures
        spec_obj_load(s) is Ok ==> forall|i: int|
            0 <= i < spec_obj_load(s)->Ok_0.len() ==> crate::obj_renderable::renderable_wf(
                #[trigger] spec_obj_load(s)->Ok_0[i],
            ),
{
    if spec_obj_load(s) is Ok {
        crate::obj_renderable::lemma_renderables_well_formed(spec_obj_load_raw(s)->Ok_0);
    }
}

/// For every OBJ text that loads, every scalar token in every renderable's
/// buffers is a valid number: a caller can always parse them into floats.
pub proof fn lemma_loaded_tokens_valid(s: Seq<char>)
    ensures
        spec_obj_load(s) is Ok ==> forall|i: int|
            0 <= i < spec_obj_load(s)->Ok_0.len()
                ==> crate::obj_renderable::renderable_tokens_valid(
                #[trigger] spec_obj_load(s)->Ok_0[i],
            ),
{
    if spec_obj_load(s) is Ok {
        lemma_scene_tokens_valid(s);
        crate::obj_renderable::lemma_renderables_tokens_valid(spec_obj_load_raw(s)->Ok_0);
    }
}

/// Loading is a pure function of the text: two loads of the same OBJ text
/// stand for structurally identical renderable sequences.
pub proof fn lemma_obj_load_deterministic(
    s: Seq<char>,
    r1: Result<Seq<RenderableView>, ObjErrorKind>,
    r2: Result<Seq<RenderableView>, ObjErrorKind>,
)
    requires
        r1 == spec_obj_load(s),
        r2 == spec_obj_load(s),
    ensures
        r1 == r2,
{
}

// -------------------------------------------------------------- exec: corner

fn parse_corner(t: &str, smooth_i: Option<u32>) -> (r: Result<ObjFaceCorner, ObjError>)
    ensures
        (match r {
            Ok(c) => spec_corner(t@, smooth_i) == Ok::<ObjFaceCorner, ObjErrorKind>(c),
            Err(e) => spec_corner(t@, smooth_i) == Err::<ObjFaceCorner, ObjErrorKind>(e.kind),
        }),
{
    let n = t.unicode_len();
    let mut i: usize = 0;
    while i < n && t.get_char(i) != '/'
        invariant
            i <= n,
            n == t@.len(),
            forall|k: int| 0 <= k < i ==> t@[k] != '/',
        decreases n - i,
    {
        i += 1;
    }
    proof {
        lemma_find_char_is(t@, '/', i as int);
    }
    let seg0 = t.substring_char(0, i);
    proof {
        assert(seg0@ =~= t@.take(i as int));
    }
    let p = match parse_uint(seg0) {
        Some(v) => v,
        None => {
            return Err(ObjError::new(ObjErrorKind::MalformedNumber, t));
        },
    };
    if i == n {
        return Ok(ObjFaceCorner { smooth_i, pos_i: p, norm_i: p, tx_i: p });
    }
    // the texture sub-index lies between the first `/` and the second
    let ghost r1 = t@.skip(i as int + 1);
    let mut j = i + 1;
    while j < n && t.get_char(j) != '/'
        invariant
            i + 1 <= j <= n,
            n == t@.len(),
            forall|k: int| i + 1 <= k < j ==> t@[k] != '/',
        decreases n - j,
    {
        j += 1;
    }
    proof {
        assert forall|k: int| 0 <= k < j - i - 1 implies r1[k] != '/' by {
            assert(r1[k] == t@[i + 1 + k]);
        }
        if j < n {
            assert(r1[j - i - 1] == t@[j as int]);
        }
        lemma_find_char_is(r1, '/', j - i - 1);
    }
    let seg1 = t.substring_char(i + 1, j);
    proof {
        assert(seg1@ =~= r1.take(j - i - 1));
    }
    let tx_i = match parse_uint(seg1) {
        Some(v) => v,
        None => p,
    };
    let norm_i: u32 = if j == n {
        p
    } else {
        // the normal sub-index lies between the second `/` and the third
        let ghost r2 = r1.skip(j - i as int);
        let mut q = j + 1;
        while q < n && t.get_char(q) != '/'
            invariant
                j + 1 <= q <= n,
                n == t@.len(),
                forall|k: int| j + 1 <= k < q ==> t@[k] != '/',
            decreases n - q,
        {
            q += 1;
        }
        proof {
            assert(r2 =~= t@.skip(j as int + 1));
            assert forall|k: int| 0 <= k < q - j - 1 implies r2[k] != '/' by {
                assert(r2[k] == t@[j + 1 + k]);
            }
            if q < n {
                assert(r2[q - j - 1] == t@[q as int]);
            }
            lemma_find_char_is(r2, '/', q - j - 1);
        }
        let seg2 = t.substring_char(j + 1, q);
        proof {
            assert(seg2@ =~= r2.take(q - j - 1));
        }
        match parse_uint(seg2) {
            Some(v) => v,
            None => p,
        }
    };
    Ok(ObjFaceCorner { smooth_i, pos_i: p, norm_i, tx_i })
}

/// Parse the corner tokens of an `f` directive (`toks[0]` is the directive
/// itself) into a face, tagging every corner with the current smoothing
/// group.
pub fn parse_f(toks: &Vec<&str>, smooth_i: Option<u32>) -> (r: Result<ObjFace, ObjError>)
    ensures
        (match r {
            Ok(f) => spec_corners(tok_views(toks@), 1, smooth_i) == Ok::<
                Seq<ObjFaceCorner>,
                ObjErrorKind,
            >(f@),
            Err(e) => spec_corners(tok_views(toks@), 1, smooth_i) == Err::<
                Seq<ObjFaceCorner>,
                ObjErrorKind,
            >(e.kind),
        }),
{
    let ghost ts = tok_views(toks@);
    if toks.len() == 0 {
        let f = ObjFace { corners: Vec::new() };
        proof {
            assert(f@ =~= Seq::<ObjFaceCorner>::empty());
        }
        return Ok(f);
    }
    let mut corners: Vec<ObjFaceCorner> = Vec::new();
    let mut idx: usize = 1;
    proof {
        let res = spec_corners(ts, 1, smooth_i);
        if res is Ok {
            assert(corners@ + res->Ok_0 =~= res->Ok_0);
        }
    }
    while idx < toks.len()
        invariant
            1 <= idx <= toks.len(),
            ts == tok_views(toks@),
            spec_corners(ts, 1, smooth_i) == (match spec_corners(ts, idx as int, smooth_i) {
                Ok(rest) => Ok::<Seq<ObjFaceCorner>, ObjErrorKind>(corners@ + rest),
                Err(k) => Err::<Seq<ObjFaceCorner>, ObjErrorKind>(k),
            }),
        decreases toks.len() - idx,
    {
        proof {
            assert(ts[idx as int] == toks@[idx as int]@);
        }
        let c = match parse_corner(toks[idx], smooth_i) {
            Ok(c) => c,
            Err(e) => {
                return Err(e);
            },
        };
        let ghost oldc = corners@;
        corners.push(c);
        proof {
            let res1 = spec_corners(ts, idx as int + 1, smooth_i);
            assert(spec_corners(ts, idx as int, smooth_i) == (match res1 {
                Ok(rest) => Ok::<Seq<ObjFaceCorner>, ObjErrorKind>(seq![c] + rest),
                Err(k) => Err::<Seq<ObjFaceCorner>, ObjErrorKind>(k),
            }));
            if res1 is Ok {
                assert(oldc + (seq![c] + res1->Ok_0) =~= corners@ + res1->Ok_0);
            }
        }
        idx += 1;
    }
    proof {
        assert(spec_corners(ts, idx as int, smooth_i) == Ok::<Seq<ObjFaceCorner>, ObjErrorKind>(
            Seq::empty(),
        ));
        assert(corners@ + Seq::<ObjFaceCorner>::empty() =~= corners@);
    }
    Ok(ObjFace { corners })
}

// ------------------------------------------------------------ exec: vertices

/// Parse a `v` line: three coordinates and an optional weight.
pub fn parse_v(toks: &Vec<&str>) -> (r: Result<Vector4, ObjError>)
    ensures
        (match r {
            Ok(p) => spec_parse_v(tok_views(toks@)) == Ok::<Vector4View, ObjErrorKind>(p@),
            Err(e) => spec_parse_v(tok_views(toks@)) == Err::<Vector4View, ObjErrorKind>(e.kind),
        }),
{
    if toks.len() < 2 {
        return Err(ObjError::new(ObjErrorKind::MissingArgument, "v"));
    }
    if !check_float(toks[1]) {
        return Err(ObjError::new(ObjErrorKind::MalformedNumber, toks[1]));
    }
    if toks.len() < 3 {
        return Err(ObjError::new(ObjErrorKind::MissingArgument, "v"));
    }
    if !check_float(toks[2]) {
        return Err(ObjError::new(ObjErrorKind::MalformedNumber, toks[2]));
    }
    if toks.len() < 4 {
        return Err(ObjError::new(ObjErrorKind::MissingArgument, "v"));
    }
    if !check_float(toks[3]) {
        return Err(ObjError::new(ObjErrorKind::MalformedNumber, toks[3]));
    }
    if toks.len() < 5 {
        return Ok(
            Vector4 {
                x: toks[1].to_owned(),
                y: toks[2].to_owned(),
                z: toks[3].to_owned(),
                w: "1".to_owned(),
            },
        );
    }
    if !check_float(toks[4]) {
        return Err(ObjError::new(ObjErrorKind::MalformedNumber, toks[4]));
    }
    Ok(
        Vector4 {
            x: toks[1].to_owned(),
            y: toks[2].to_owned(),
            z: toks[3].to_owned(),
            w: toks[4].to_owned(),
        },
    )
}

/// Parse a `vt` line: two texture coordinates.
pub fn parse_vt(toks: &Vec<&str>) -> (r: Result<Vector2, ObjError>)
    ensures
        (match r {
            Ok(p) => spec_parse_vt(tok_views(toks@)) == Ok::<Vector2View, ObjErrorKind>(p@),
            Err(e) => spec_parse_vt(tok_views(toks@)) == Err::<Vector2View, ObjErrorKind>(e.kind),
        }),
{
    if toks.len() < 2 {
        return Err(ObjError::new(ObjErrorKind::MissingArgument, "vt"));
    }
    if !check_float(toks[1]) {
        return Err(ObjError::new(ObjErrorKind::MalformedNumber, toks[1]));
    }
    if toks.len() < 3 {
        return Err(ObjError::new(ObjErrorKind::MissingArgument, "vt"));
    }
    if !check_float(toks[2]) {
        return Err(ObjError::new(ObjErrorKind::MalformedNumber, toks[2]));
    }
    Ok(Vector2 { x: toks[1].to_owned(), y: toks[2].to_owned() })
}

/// Parse a `vn` line: three normal components.
pub fn parse_vn(toks: &Vec<&str>) -> (r: Result<Vector3, ObjError>)
    ensures
        (match r {
            Ok(p) => spec_parse_vn(tok_views(toks@)) == Ok::<Vector3View, ObjErrorKind>(p@),
            Err(e) => spec_parse_vn(tok_views(toks@)) == Err::<Vector3View, ObjErrorKind>(e.kind),
        }),
{
    if toks.len() < 2 {
        return Err(ObjError::new(ObjErrorKind::MissingArgument, "vn"));
    }
    if !check_float(toks[1]) {
        return Err(ObjError::new(ObjErrorKind::MalformedNumber, toks[1]));
    }
    if toks.len() < 3 {
        return Err(ObjError::new(ObjErrorKind::MissingArgument, "vn"));
    }
    if !check_float(toks[2]) {
        return Err(ObjError::new(ObjErrorKind::MalformedNumber, toks[2]));
    }
    if toks.len() < 4 {
        return Err(ObjError::new(ObjErrorKind::MissingArgument, "vn"));
    }
    if !check_float(toks[3]) {
        return Err(ObjError::new(ObjErrorKind::MalformedNumber, toks[3]));
    }
    Ok(Vector3 { x: toks[1].to_owned(), y: toks[2].to_owned(), z: toks[3].to_owned() })
}

// --------------------------------------------------------------- exec: lines

/// The parser's accumulator while the text is walked.
pub struct LoaderState {
    pub scene: ObjScene,
    pub group: ObjGroup,
    pub smooth_i: Option<u32>,
}

impl View for LoaderState {
    type V = LoaderView;

    open spec fn view(&self) -> LoaderView {
        LoaderView { scene: self.scene@, group: self.group@, smooth_i: self.smooth_i }
    }
}

/// Apply one OBJ line to the parser state.
pub fn process_line(st: LoaderState, line: &str) -> (r: Result<LoaderState, ObjError>)
    ensures
        (match r {
            Ok(st2) => spec_obj_line(st@, line@) == Ok::<LoaderView, ObjErrorKind>(st2@),
            Err(e) => spec_obj_line(st@, line@) == Err::<LoaderView, ObjErrorKind>(e.kind),
        }),
{
    let ghost st0 = st@;
    let toks = line_tokens(line);
    let ghost ts = spec_line_tokens(line@);
    proof {
        assert(tok_views(toks@) =~~= ts);
    }
    if toks.len() == 0 {
        return Ok(st);
    }
    let mut st = st;
    let w = toks[0];
    proof {
        assert(w@ == ts[0]);
    }
    if str_eq(w, "v") {
        match parse_v(&toks) {
            Ok(p) => {
                st.scene.vert_pos.push(p);
                proof {
                    assert(st@.scene.vert_pos =~= st0.scene.vert_pos.push(p@));
                    assert(st@ =~~= spec_obj_line(st0, line@)->Ok_0);
                }
                Ok(st)
            },
            Err(e) => Err(e),
        }
    } else if str_eq(w, "vt") {
        match parse_vt(&toks) {
            Ok(p) => {
                st.scene.vert_tx.push(p);
                proof {
                    assert(st@.scene.vert_tx =~= st0.scene.vert_tx.push(p@));
                    assert(st@ =~~= spec_obj_line(st0, line@)->Ok_0);
                }
                Ok(st)
            },
            Err(e) => Err(e),
        }
    } else if str_eq(w, "vn") {
        match parse_vn(&toks) {
            Ok(p) => {
                st.scene.vert_norm.push(p);
                proof {
                    assert(st@.scene.vert_norm =~= st0.scene.vert_norm.push(p@));
                    assert(st@ =~~= spec_obj_line(st0, line@)->Ok_0);
                }
                Ok(st)
            },
            Err(e) => Err(e),
        }
    } else if str_eq(w, "usemtl") {
        if toks.len() < 2 {
            return Err(ObjError::new(ObjErrorKind::MissingArgument, "usemtl"));
        }
        st.group.mat = Some(toks[1].to_owned());
        proof {
            assert(st@ =~~= spec_obj_line(st0, line@)->Ok_0);
        }
        Ok(st)
    } else if str_eq(w, "g") {
        if toks.len() < 2 {
            return Err(ObjError::new(ObjErrorKind::MissingArgument, "g"));
        }
        let LoaderState { mut scene, group, smooth_i } = st;
        if group.faces.len() > 0 {
            let ghost grps0 = scene@.grps;
            scene.grps.push(group);
            proof {
                assert(scene@.grps =~= grps0.push(st0.group));
            }
        }
        let st2 = LoaderState {
            scene,
            group: ObjGroup { name: toks[1].to_owned(), mat: None, faces: Vec::new() },
            smooth_i,
        };
        proof {
            assert(st2@ =~~= spec_obj_line(st0, line@)->Ok_0);
        }
        Ok(st2)
    } else if str_eq(w, "s") {
        if toks.len() < 2 {
            st.smooth_i = None;
            proof {
                assert(st@ =~~= spec_obj_line(st0, line@)->Ok_0);
            }
            return Ok(st);
        }
        if str_eq(toks[1], "off") {
            st.smooth_i = None;
            proof {
                assert(st@ =~~= spec_obj_line(st0, line@)->Ok_0);
            }
            return Ok(st);
        }
        match parse_uint(toks[1]) {
            Some(v) => {
                st.smooth_i = Some(v);
                proof {
                    assert(v == uint_token_val(ts[1]) as u32);
                    assert(st@ =~~= spec_obj_line(st0, line@)->Ok_0);
                }
                Ok(st)
            },
            None => Err(ObjError::new(ObjErrorKind::MalformedNumber, toks[1])),
        }
    } else if str_eq(w, "f") {
        match parse_f(&toks, st.smooth_i) {
            Ok(f) => {
                st.group.faces.push(f);
                proof {
                    assert(st@.group.faces =~~= st0.group.faces.push(f@));
                    assert(st@ =~~= spec_obj_line(st0, line@)->Ok_0);
                }
                Ok(st)
            },
            Err(e) => Err(e),
        }
    } else {
        Ok(st)
    }
}

/// Parse a whole OBJ text into the raw scene.
pub fn obj_load_raw(wf_file: &str) -> (r: Result<ObjScene, ObjError>)
    ensures
        (match r {
            Ok(scene) => spec_obj_load_raw(wf_file@) == Ok::<SceneView, ObjErrorKind>(scene@),
            Err(e) => spec_obj_load_raw(wf_file@) == Err::<SceneView, ObjErrorKind>(e.kind),
        }),
{
    let lines = split_lines(wf_file);
    let ghost lv = spec_lines(wf_file@);
    let mut st = LoaderState {
        scene: ObjScene {
            vert_pos: Vec::new(),
            vert_norm: Vec::new(),
            vert_tx: Vec::new(),
            grps: Vec::new(),
        },
        group: ObjGroup { name: String::new(), mat: None, faces: Vec::new() },
        smooth_i: None,
    };
    proof {
        assert(st@ =~~= init_loader());
    }
    let mut k: usize = 0;
    while k < lines.len()
        invariant
            k <= lines.len(),
            lines@.len() == lv.len(),
            forall|i: int| 0 <= i < lv.len() ==> lines@[i]@ == lv[i],
            lv == spec_lines(wf_file@),
            spec_obj_lines(init_loader(), lv, 0) == spec_obj_lines(st@, lv, k as int),
        decreases lines.len() - k,
    {
        let ghost pre = st@;
        st = match process_line(st, lines[k]) {
            Ok(s) => s,
            Err(e) => {
                proof {
                    assert(lines@[k as int]@ == lv[k as int]);
                    assert(spec_obj_lines(pre, lv, k as int) == Err::<LoaderView, ObjErrorKind>(
                        e.kind,
                    ));
                }
                return Err(e);
            },
        };
        proof {
            assert(lines@[k as int]@ == lv[k as int]);
            assert(spec_obj_lines(pre, lv, k as int) == spec_obj_lines(st@, lv, k as int + 1));
        }
        k += 1;
    }
    let ghost last = st@;
    let LoaderState { mut scene, group, smooth_i: _ } = st;
    if group.faces.len() > 0 {
        let ghost grps0 = scene@.grps;
        scene.grps.push(group);
        proof {
            assert(scene@.grps =~= grps0.push(last.group));
        }
    }
    proof {
        assert(scene@ =~~= spec_finish(last));
    }
    Ok(scene)
}

/// Load an OBJ text: parse it and convert every group to a renderable.
pub fn obj_load(wf_file: &str) -> (r: Result<Vec<ObjRenderable>, ObjError>)
    ensures
        (match r {
            Ok(objs) => {
                &&& spec_obj_load(wf_file@) is Ok
                &&& objs@.len() == spec_obj_load(wf_file@)->Ok_0.len()
                &&& forall|i: int|
                    0 <= i < objs@.len() ==> objs@[i]@ == spec_obj_load(wf_file@)->Ok_0[i]
            },
            Err(e) => spec_obj_load(wf_file@) == Err::<Seq<RenderableView>, ObjErrorKind>(e.kind),
        }),
{
    let scene = match obj_load_raw(wf_file) {
        Ok(s) => s,
        Err(e) => {
            return Err(e);
        },
    };
    obj_to_renderable(&scene)
}

} // verus!
