//! The MTL material parser: the same line discipline as the OBJ parser,
//! but strict about directives it does not know, and stateful only in
//! which material block is currently open.

use vstd::prelude::*;
use vstd::string::{StrSliceExecFns, StringExecFns};

use crate::error::{ObjError, ObjErrorKind};
use crate::numtok::{is_float_token, is_uint_token, uint_token_val, check_float, parse_uint};
use crate::obj::{Vector3, Vector3View};
use crate::text::{line_tokens, spec_line_tokens, spec_lines, split_lines, str_eq, tok_views};

verus! {

// -------------------------------------------------------------------- types

/// How a material's transparency was given: the `d` (dissolve) directive
/// stores the complement of its argument (transparency = 1 - dissolve),
/// `Tr` stores its argument as it stands.
#[derive(Clone, Debug, PartialEq)]
pub enum Transparency {
    FromDissolve(String),
    Given(String),
}

#[verifier::ext_equal]
pub enum TransparencyView {
    FromDissolve(Seq<char>),
    Given(Seq<char>),
}

impl View for Transparency {
    type V = TransparencyView;

    open spec fn view(&self) -> TransparencyView {
        match self {
            Transparency::FromDissolve(t) => TransparencyView::FromDissolve(t@),
            Transparency::Given(t) => TransparencyView::Given(t@),
        }
    }
}

impl DeepView for Transparency {
    type V = TransparencyView;

    open spec fn deep_view(&self) -> TransparencyView {
        self.view()
    }
}

/// A named material: every field is optional and absent until its
/// directive appears; a later directive for the same field overwrites the
/// earlier one.
#[derive(Clone, Debug, PartialEq)]
pub struct ObjMaterial {
    pub name: String,
    pub specular_exponent: Option<String>,
    pub optical_density: Option<String>,
    pub transparency: Option<Transparency>,
    pub transmission_filter: Option<Vector3>,
    pub illumination_model: Option<u32>,
    pub ambient_color: Option<Vector3>,
    pub diffuse_color: Option<Vector3>,
    pub specular_color: Option<Vector3>,
    pub emissive_color: Option<Vector3>,
    pub ambient_map_filename: Option<String>,
    pub diffuse_map_filename: Option<String>,
    pub transparency_map_filename: Option<String>,
    pub bump_map_filename: Option<String>,
}

#[verifier::ext_equal]
pub struct MaterialView {
    pub name: Seq<char>,
    pub specular_exponent: Option<Seq<char>>,
    pub optical_density: Option<Seq<char>>,
    pub transparency: Option<TransparencyView>,
    pub transmission_filter: Option<Vector3View>,
    pub illumination_model: Option<u32>,
    pub ambient_color: Option<Vector3View>,
    pub diffuse_color: Option<Vector3View>,
    pub specular_color: Option<Vector3View>,
    pub emissive_color: Option<Vector3View>,
    pub ambient_map_filename: Option<Seq<char>>,
    pub diffuse_map_filename: Option<Seq<char>>,
    pub transparency_map_filename: Option<Seq<char>>,
    pub bump_map_filename: Option<Seq<char>>,
}

impl View for ObjMaterial {
    type V = MaterialView;

    open spec fn view(&self) -> MaterialView {
        MaterialView {
            name: self.name@,
            specular_exponent: self.specular_exponent.deep_view(),
            optical_density: self.optical_density.deep_view(),
            transparency: self.transparency.deep_view(),
            transmission_filter: self.transmission_filter.deep_view(),
            illumination_model: self.illumination_model,
            ambient_color: self.ambient_color.deep_view(),
            diffuse_color: self.diffuse_color.deep_view(),
            specular_color: self.specular_color.deep_view(),
            emissive_color: self.emissive_color.deep_view(),
            ambient_map_filename: self.ambient_map_filename.deep_view(),
            diffuse_map_filename: self.diffuse_map_filename.deep_view(),
            transparency_map_filename: self.transparency_map_filename.deep_view(),
            bump_map_filename: self.bump_map_filename.deep_view(),
        }
    }
}

impl DeepView for ObjMaterial {
    type V = MaterialView;

    open spec fn deep_view(&self) -> MaterialView {
        self.view()
    }
}

/// The materials a whole MTL text defines. Each name maps to one material:
/// a second `newmtl` with the same name overwrites the first.
#[derive(Clone, Debug, PartialEq)]
pub struct ObjMaterialCollection {
    pub materials: Vec<ObjMaterial>,
}

impl View for ObjMaterialCollection {
    type V = Seq<MaterialView>;

    open spec fn view(&self) -> Seq<MaterialView> {
        self.materials.deep_view()
    }
}

// --------------------------------------------------------------- spec: model

/// A fresh material block: only the name is set.
pub open spec fn empty_material(name: Seq<char>) -> MaterialView {
    MaterialView {
        name,
        specular_exponent: None,
        optical_density: None,
        transparency: None,
        transmission_filter: None,
        illumination_model: None,
        ambient_color: None,
        diffuse_color: None,
        specular_color: None,
        emissive_color: None,
        ambient_map_filename: None,
        diffuse_map_filename: None,
        transparency_map_filename: None,
        bump_map_filename: None,
    }
}

/// First index of a material with this name, if any.
pub open spec fn spec_find_mat(mats: Seq<MaterialView>, name: Seq<char>) -> Option<int>
    decreases mats.len(),
{
    if mats.len() == 0 {
        None
    } else if mats[0].name == name {
        Some(0)
    } else {
        match spec_find_mat(mats.drop_first(), name) {
            Some(i) => Some(i + 1),
            None => None,
        }
    }
}

pub proof fn lemma_find_mat_is(mats: Seq<MaterialView>, name: Seq<char>, m: int)
    requires
        0 <= m <= mats.len(),
        forall|j: int| 0 <= j < m ==> mats[j].name != name,
        m < mats.len() ==> mats[m].name == name,
    ensures
        spec_find_mat(mats, name) == (if m == mats.len() {
            None::<int>
        } else {
            Some(m)
        }),
    decreases mats.len(),
{
    if mats.len() == 0 {
    } else if mats[0].name == name {
        assert(m == 0);
    } else {
        assert(m >= 1);
        assert forall|j: int| 0 <= j < m - 1 implies mats.drop_first()[j].name != name by {
            assert(mats.drop_first()[j] == mats[j + 1]);
        }
        if m - 1 < mats.drop_first().len() {
            assert(mats.drop_first()[m - 1] == mats[m]);
        }
        lemma_find_mat_is(mats.drop_first(), name, m - 1);
    }
}

/// Flush a finished block into the collection: replace the material of the
/// same name, or append.
pub open spec fn spec_insert_mat(mats: Seq<MaterialView>, m: MaterialView) -> Seq<MaterialView> {
    match spec_find_mat(mats, m.name) {
        Some(i) => mats.update(i, m),
        None => mats.push(m),
    }
}

/// Replace each backslash in a filename with a forward slash.
pub open spec fn normalize_slashes(s: Seq<char>) -> Seq<char> {
    s.map_values(
        |c: char|
            if c == '\\' {
                '/'
            } else {
                c
            },
    )
}


// small update helpers keep the line-step spec readable and its terms small

pub open spec fn with_specular_exponent(m: MaterialView, t: Seq<char>) -> MaterialView {
    MaterialView { specular_exponent: Some(t), ..m }
}

pub open spec fn with_optical_density(m: MaterialView, t: Seq<char>) -> MaterialView {
    MaterialView { optical_density: Some(t), ..m }
}

pub open spec fn with_transparency(m: MaterialView, t: TransparencyView) -> MaterialView {
    MaterialView { transparency: Some(t), ..m }
}

pub open spec fn with_transmission_filter(m: MaterialView, v: Vector3View) -> MaterialView {
    MaterialView { transmission_filter: Some(v), ..m }
}

pub open spec fn with_illumination_model(m: MaterialView, v: u32) -> MaterialView {
    MaterialView { illumination_model: Some(v), ..m }
}

pub open spec fn with_ambient_color(m: MaterialView, v: Vector3View) -> MaterialView {
    MaterialView { ambient_color: Some(v), ..m }
}

pub open spec fn with_diffuse_color(m: MaterialView, v: Vector3View) -> MaterialView {
    MaterialView { diffuse_color: Some(v), ..m }
}

pub open spec fn with_specular_color(m: MaterialView, v: Vector3View) -> MaterialView {
    MaterialView { specular_color: Some(v), ..m }
}

pub open spec fn with_emissive_color(m: MaterialView, v: Vector3View) -> MaterialView {
    MaterialView { emissive_color: Some(v), ..m }
}

pub open spec fn with_ambient_map(m: MaterialView, f: Seq<char>) -> MaterialView {
    MaterialView { ambient_map_filename: Some(f), ..m }
}

pub open spec fn with_diffuse_map(m: MaterialView, f: Seq<char>) -> MaterialView {
    MaterialView { diffuse_map_filename: Some(f), ..m }
}

pub open spec fn with_transparency_map(m: MaterialView, f: Seq<char>) -> MaterialView {
    MaterialView { transparency_map_filename: Some(f), ..m }
}

pub open spec fn with_bump_map(m: MaterialView, f: Seq<char>) -> MaterialView {
    MaterialView { bump_map_filename: Some(f), ..m }
}

/// The MTL parser's accumulator: the block currently open, if any, and the
/// finished materials.
#[verifier::ext_equal]
pub struct MtlView {
    pub cur: Option<MaterialView>,
    pub mats: Seq<MaterialView>,
}

/// A scalar directive's argument: one float token, only valid inside a
/// material block.
pub open spec fn spec_scalar_arg(st: MtlView, toks: Seq<Seq<char>>) -> Result<
    Seq<char>,
    ObjErrorKind,
> {
    if st.cur is None {
        Err(ObjErrorKind::DirectiveBeforeMaterial)
    } else if toks.len() < 2 {
        Err(ObjErrorKind::MissingArgument)
    } else if !is_float_token(toks[1]) {
        Err(ObjErrorKind::MalformedNumber)
    } else {
        Ok(toks[1])
    }
}

/// A color-like directive's argument: exactly three float tokens.
pub open spec fn spec_vec3_arg(st: MtlView, toks: Seq<Seq<char>>) -> Result<
    Vector3View,
    ObjErrorKind,
> {
    if st.cur is None {
        Err(ObjErrorKind::DirectiveBeforeMaterial)
    } else if toks.len() < 2 {
        Err(ObjErrorKind::MissingArgument)
    } else if !is_float_token(toks[1]) {
        Err(ObjErrorKind::MalformedNumber)
    } else if toks.len() < 3 {
        Err(ObjErrorKind::MissingArgument)
    } else if !is_float_token(toks[2]) {
        Err(ObjErrorKind::MalformedNumber)
    } else if toks.len() < 4 {
        Err(ObjErrorKind::MissingArgument)
    } else if !is_float_token(toks[3]) {
        Err(ObjErrorKind::MalformedNumber)
    } else {
        Ok(Vector3View { x: toks[1], y: toks[2], z: toks[3] })
    }
}

/// A texture-map directive's argument: a filename token, its path
/// separators normalized.
pub open spec fn spec_name_arg(st: MtlView, toks: Seq<Seq<char>>) -> Result<
    Seq<char>,
    ObjErrorKind,
> {
    if st.cur is None {
        Err(ObjErrorKind::DirectiveBeforeMaterial)
    } else if toks.len() < 2 {
        Err(ObjErrorKind::MissingArgument)
    } else {
        Ok(normalize_slashes(toks[1]))
    }
}

/// The `illum` directive's argument: one unsigned integer.
pub open spec fn spec_uint_arg(st: MtlView, toks: Seq<Seq<char>>) -> Result<u32, ObjErrorKind> {
    if st.cur is None {
        Err(ObjErrorKind::DirectiveBeforeMaterial)
    } else if toks.len() < 2 {
        Err(ObjErrorKind::MissingArgument)
    } else if !is_uint_token(toks[1]) {
        Err(ObjErrorKind::MalformedNumber)
    } else {
        Ok(uint_token_val(toks[1]) as u32)
    }
}

/// What one MTL line does to the parser state. Unlike the OBJ parser, an
/// unrecognized directive is an error here.
pub open spec fn spec_mtl_line(st: MtlView, l: Seq<char>) -> Result<MtlView, ObjErrorKind> {
    let toks = spec_line_tokens(l);
    if toks.len() == 0 {
        Ok(st)
    } else {
        let w = toks[0];
        if w == "newmtl"@ {
            if toks.len() < 2 {
                Err(ObjErrorKind::MissingArgument)
            } else {
                let mats = match st.cur {
                    Some(m) => spec_insert_mat(st.mats, m),
                    None => st.mats,
                };
                Ok(MtlView { cur: Some(empty_material(toks[1])), mats })
            }
        } else if w == "Ns"@ {
            match spec_scalar_arg(st, toks) {
                Ok(t) => Ok(
                    MtlView { cur: Some(with_specular_exponent(st.cur->0, t)), ..st },
                ),
                Err(k) => Err(k),
            }
        } else if w == "Ni"@ {
            match spec_scalar_arg(st, toks) {
                Ok(t) => Ok(
                    MtlView { cur: Some(with_optical_density(st.cur->0, t)), ..st },
                ),
                Err(k) => Err(k),
            }
        } else if w == "d"@ {
            match spec_scalar_arg(st, toks) {
                Ok(t) => Ok(
                    MtlView {
                        cur: Some(with_transparency(st.cur->0, TransparencyView::FromDissolve(t))),
                        ..st
                    },
                ),
                Err(k) => Err(k),
            }
        } else if w == "Tr"@ {
            match spec_scalar_arg(st, toks) {
                Ok(t) => Ok(
                    MtlView {
                        cur: Some(with_transparency(st.cur->0, TransparencyView::Given(t))),
                        ..st
                    },
                ),
                Err(k) => Err(k),
            }
        } else if w == "Tf"@ {
            match spec_vec3_arg(st, toks) {
                Ok(v) => Ok(
                    MtlView { cur: Some(with_transmission_filter(st.cur->0, v)), ..st },
                ),
                Err(k) => Err(k),
            }
        } else if w == "illum"@ {
            match spec_uint_arg(st, toks) {
                Ok(v) => Ok(
                    MtlView { cur: Some(with_illumination_model(st.cur->0, v)), ..st },
                ),
                Err(k) => Err(k),
            }
        } else if w == "Ka"@ {
            match spec_vec3_arg(st, toks) {
                Ok(v) => Ok(
                    MtlView { cur: Some(with_ambient_color(st.cur->0, v)), ..st },
                ),
                Err(k) => Err(k),
            }
        } else if w == "Kd"@ {
            match spec_vec3_arg(st, toks) {
                Ok(v) => Ok(
                    MtlView { cur: Some(with_diffuse_color(st.cur->0, v)), ..st },
                ),
                Err(k) => Err(k),
            }
        } else if w == "Ke"@ {
            match spec_vec3_arg(st, toks) {
                Ok(v) => Ok(
                    MtlView { cur: Some(with_emissive_color(st.cur->0, v)), ..st },
                ),
                Err(k) => Err(k),
            }
        } else if w == "Ks"@ {
            match spec_vec3_arg(st, toks) {
                Ok(v) => Ok(
                    MtlView { cur: Some(with_specular_color(st.cur->0, v)), ..st },
                ),
                Err(k) => Err(k),
            }
        } else if w == "map_Ka"@ {
            match spec_name_arg(st, toks) {
                Ok(f) => Ok(
                    MtlView { cur: Some(with_ambient_map(st.cur->0, f)), ..st },
                ),
                Err(k) => Err(k),
            }
        } else if w == "map_Kd"@ {
            match spec_name_arg(st, toks) {
                Ok(f) => Ok(
                    MtlView { cur: Some(with_diffuse_map(st.cur->0, f)), ..st },
                ),
                Err(k) => Err(k),
            }
        } else if w == "map_d"@ {
            match spec_name_arg(st, toks) {
                Ok(f) => Ok(
                    MtlView {
                        cur: Some(with_transparency_map(st.cur->0, f)),
                        ..st
                    },
                ),
                Err(k) => Err(k),
            }
        } else if w == "map_bump"@ || w == "bump"@ {
            match spec_name_arg(st, toks) {
                Ok(f) => Ok(
                    MtlView { cur: Some(with_bump_map(st.cur->0, f)), ..st },
                ),
                Err(k) => Err(k),
            }
        } else {
            Err(ObjErrorKind::UnrecognizedDirective)
        }
    }
}

/// Fold of the line step over the lines from index `i` onward.
pub open spec fn spec_mtl_lines(st: MtlView, lines: Seq<Seq<char>>, i: int) -> Result<
    MtlView,
    ObjErrorKind,
>
    decreases lines.len() - i,
{
    if i >= lines.len() {
        Ok(st)
    } else {
        match spec_mtl_line(st, lines[i]) {
            Ok(st2) => spec_mtl_lines(st2, lines, i + 1),
            Err(k) => Err(k),
        }
    }
}

/// The final flush: a still-open block joins the collection.
pub open spec fn spec_mtl_finish(st: MtlView) -> Seq<MaterialView> {
    match st.cur {
        Some(m) => spec_insert_mat(st.mats, m),
        None => st.mats,
    }
}

/// What parsing a whole MTL text yields.
pub open spec fn spec_mtl_load(s: Seq<char>) -> Result<Seq<MaterialView>, ObjErrorKind> {
    match spec_mtl_lines(MtlView { cur: None, mats: Seq::empty() }, spec_lines(s), 0) {
        Ok(st) => Ok(spec_mtl_finish(st)),
        Err(k) => Err(k),
    }
}

// --------------------------------------------------------------------- laws

/// No two materials share a name: the collection is a mapping.
pub open spec fn mat_names_distinct(mats: Seq<MaterialView>) -> bool {
    forall|i: int, j: int| 0 <= i < j < mats.len() ==> mats[i].name != mats[j].name
}

proof fn lemma_find_mat_none(mats: Seq<MaterialView>, name: Seq<char>)
    requires
        spec_find_mat(mats, name) is None,
    ensures
        forall|j: int| 0 <= j < mats.len() ==> (#[trigger] mats[j]).name != name,
    decreases mats.len(),
{
    if mats.len() == 0 {
    } else if mats[0].name == name {
    } else {
        lemma_find_mat_none(mats.drop_first(), name);
        assert forall|j: int| 0 <= j < mats.len() implies (#[trigger] mats[j]).name != name by {
            if j >= 1 {
                assert(mats.drop_first()[j - 1] == mats[j]);
            }
        }
    }
}

proof fn lemma_find_mat_some(mats: Seq<MaterialView>, name: Seq<char>)
    requires
        spec_find_mat(mats, name) is Some,
    ensures
        0 <= spec_find_mat(mats, name)->0 < mats.len(),
        mats[spec_find_mat(mats, name)->0].name == name,
    decreases mats.len(),
{
    if mats.len() == 0 {
    } else if mats[0].name == name {
    } else {
        lemma_find_mat_some(mats.drop_first(), name);
        let i = spec_find_mat(mats, name)->0;
        assert(mats.drop_first()[i - 1] == mats[i]);
    }
}

proof fn lemma_insert_mat_names(mats: Seq<MaterialView>, m: MaterialView)
    requires
        mat_names_distinct(mats),
    ensures
        mat_names_distinct(spec_insert_mat(mats, m)),
{
    let out = spec_insert_mat(mats, m);
    match spec_find_mat(mats, m.name) {
        Some(i) => {
            lemma_find_mat_some(mats, m.name);
            assert forall|a: int, b: int| 0 <= a < b < out.len() implies out[a].name
                != out[b].name by {
                assert(out[a].name == mats[a].name);
                assert(out[b].name == mats[b].name);
            }
        },
        None => {
            lemma_find_mat_none(mats, m.name);
            assert forall|a: int, b: int| 0 <= a < b < out.len() implies out[a].name
                != out[b].name by {
                if b < mats.len() {
                } else {
                    assert(out[b] == m);
                    assert(out[a] == mats[a]);
                }
            }
        },
    }
}

#[verifier::rlimit(100)]
proof fn lemma_mtl_line_names(st: MtlView, l: Seq<char>)
    requires
        spec_mtl_line(st, l) is Ok,
        mat_names_distinct(st.mats),
    ensures
        mat_names_distinct(spec_mtl_line(st, l)->Ok_0.mats),
{
    let toks = spec_line_tokens(l);
    if toks.len() > 0 && toks[0] == "newmtl"@ && toks.len() >= 2 {
        match st.cur {
            Some(m) => {
                lemma_insert_mat_names(st.mats, m);
            },
            None => {},
        }
    }
}

proof fn lemma_mtl_lines_names(st: MtlView, lines: Seq<Seq<char>>, i: int)
    requires
        spec_mtl_lines(st, lines, i) is Ok,
        mat_names_distinct(st.mats),
    ensures
        mat_names_distinct(spec_mtl_lines(st, lines, i)->Ok_0.mats),
    decreases lines.len() - i,
{
    if i >= lines.len() {
    } else {
        lemma_mtl_line_names(st, lines[i]);
        lemma_mtl_lines_names(spec_mtl_line(st, lines[i])->Ok_0, lines, i + 1);
    }
}

/// A parsed material collection maps each name to one material: a second
/// block with a name already seen replaced the earlier one.
pub proof fn lemma_mtl_names_unique(s: Seq<char>)
    ensures
        spec_mtl_load(s) is Ok ==> mat_names_distinct(spec_mtl_load(s)->Ok_0),
{
    if spec_mtl_load(s) is Ok {
        let init = MtlView { cur: None, mats: Seq::empty() };
        lemma_mtl_lines_names(init, spec_lines(s), 0);
        let st = spec_mtl_lines(init, spec_lines(s), 0)->Ok_0;
        match st.cur {
            Some(m) => {
                lemma_insert_mat_names(st.mats, m);
            },
            None => {},
        }
    }
}

// --------------------------------------------------------------------- exec

struct MtlState {
    cur: Option<ObjMaterial>,
    mats: Vec<ObjMaterial>,
}

spec fn mtl_view(st: MtlState) -> MtlView {
    MtlView { cur: st.cur.deep_view(), mats: st.mats.deep_view() }
}

fn new_material(name: &str) -> (m: ObjMaterial)
    ensures
        m@ == empty_material(name@),
{
    ObjMaterial {
        name: name.to_owned(),
        specular_exponent: None,
        optical_density: None,
        transparency: None,
        transmission_filter: None,
        illumination_model: None,
        ambient_color: None,
        diffuse_color: None,
        specular_color: None,
        emissive_color: None,
        ambient_map_filename: None,
        diffuse_map_filename: None,
        transparency_map_filename: None,
        bump_map_filename: None,
    }
}

fn insert_mat(mats: &mut Vec<ObjMaterial>, m: ObjMaterial)
    ensures
        final(mats).deep_view() == spec_insert_mat(old(mats).deep_view(), m@),
{
    let ghost mv = mats.deep_view();
    let mut i: usize = 0;
    while i < mats.len()
        invariant
            i <= mats.len(),
            mv == mats.deep_view(),
            mv == old(mats).deep_view(),
            forall|j: int| 0 <= j < i ==> mv[j].name != m@.name,
        decreases mats.len() - i,
    {
        if str_eq(mats[i].name.as_str(), m.name.as_str()) {
            proof {
                lemma_find_mat_is(mv, m@.name, i as int);
            }
            mats.set(i, m);
            proof {
                assert(mats.deep_view() =~= mv.update(i as int, m@));
            }
            return ;
        }
        i += 1;
    }
    proof {
        lemma_find_mat_is(mv, m@.name, mv.len() as int);
    }
    mats.push(m);
    proof {
        assert(mats.deep_view() =~= mv.push(m@));
    }
}

fn normalize_name(s: &str) -> (r: String)
    ensures
        r@ == normalize_slashes(s@),
{
    let n = s.unicode_len();
    let mut out = String::new();
    let mut i: usize = 0;
    while i < n
        invariant
            i <= n,
            n == s@.len(),
            out@.len() == i,
            forall|k: int|
                0 <= k < i ==> out@[k] == (if s@[k] == '\\' {
                    '/'
                } else {
                    s@[k]
                }),
        decreases n - i,
    {
        let c = s.get_char(i);
        if c == '\\' {
            proof {
                reveal_strlit("/");
            }
            out.append("/");
        } else {
            let piece = s.substring_char(i, i + 1);
            proof {
                assert(piece@ =~= s@.subrange(i as int, i as int + 1));
            }
            out.append(piece);
        }
        i += 1;
    }
    proof {
        assert(out@ =~= normalize_slashes(s@));
    }
    out
}

// helpers that read a directive's arguments, with the same error
// precedence as the spec: open block first, then presence, then shape

fn scalar_arg(Ghost(stv): Ghost<MtlView>, has_cur: bool, toks: &Vec<&str>, w: &str) -> (r: Result<
    String,
    ObjError,
>)
    requires
        has_cur == (stv.cur is Some),
    ensures
        (match r {
            Ok(t) => spec_scalar_arg(stv, tok_views(toks@)) == Ok::<Seq<char>, ObjErrorKind>(t@),
            Err(e) => spec_scalar_arg(stv, tok_views(toks@)) == Err::<Seq<char>, ObjErrorKind>(
                e.kind,
            ),
        }),
{
    if !has_cur {
        return Err(ObjError::new(ObjErrorKind::DirectiveBeforeMaterial, w));
    }
    if toks.len() < 2 {
        return Err(ObjError::new(ObjErrorKind::MissingArgument, w));
    }
    if !check_float(toks[1]) {
        return Err(ObjError::new(ObjErrorKind::MalformedNumber, toks[1]));
    }
    Ok(toks[1].to_owned())
}

fn vec3_arg(Ghost(stv): Ghost<MtlView>, has_cur: bool, toks: &Vec<&str>, w: &str) -> (r: Result<
    Vector3,
    ObjError,
>)
    requires
        has_cur == (stv.cur is Some),
    ensures
        (match r {
            Ok(v) => spec_vec3_arg(stv, tok_views(toks@)) == Ok::<Vector3View, ObjErrorKind>(v@),
            Err(e) => spec_vec3_arg(stv, tok_views(toks@)) == Err::<Vector3View, ObjErrorKind>(
                e.kind,
            ),
        }),
{
    if !has_cur {
        return Err(ObjError::new(ObjErrorKind::DirectiveBeforeMaterial, w));
    }
    if toks.len() < 2 {
        return Err(ObjError::new(ObjErrorKind::MissingArgument, w));
    }
    if !check_float(toks[1]) {
        return Err(ObjError::new(ObjErrorKind::MalformedNumber, toks[1]));
    }
    if toks.len() < 3 {
        return Err(ObjError::new(ObjErrorKind::MissingArgument, w));
    }
    if !check_float(toks[2]) {
        return Err(ObjError::new(ObjErrorKind::MalformedNumber, toks[2]));
    }
    if toks.len() < 4 {
        return Err(ObjError::new(ObjErrorKind::MissingArgument, w));
    }
    if !check_float(toks[3]) {
        return Err(ObjError::new(ObjErrorKind::MalformedNumber, toks[3]));
    }
    Ok(Vector3 { x: toks[1].to_owned(), y: toks[2].to_owned(), z: toks[3].to_owned() })
}

fn name_arg(Ghost(stv): Ghost<MtlView>, has_cur: bool, toks: &Vec<&str>, w: &str) -> (r: Result<
    String,
    ObjError,
>)
    requires
        has_cur == (stv.cur is Some),
    ensures
        (match r {
            Ok(f) => spec_name_arg(stv, tok_views(toks@)) == Ok::<Seq<char>, ObjErrorKind>(f@),
            Err(e) => spec_name_arg(stv, tok_views(toks@)) == Err::<Seq<char>, ObjErrorKind>(
                e.kind,
            ),
        }),
{
    if !has_cur {
        return Err(ObjError::new(ObjErrorKind::DirectiveBeforeMaterial, w));
    }
    if toks.len() < 2 {
        return Err(ObjError::new(ObjErrorKind::MissingArgument, w));
    }
    Ok(normalize_name(toks[1]))
}

fn uint_arg(Ghost(stv): Ghost<MtlView>, has_cur: bool, toks: &Vec<&str>, w: &str) -> (r: Result<
    u32,
    ObjError,
>)
    requires
        has_cur == (stv.cur is Some),
    ensures
        (match r {
            Ok(v) => spec_uint_arg(stv, tok_views(toks@)) == Ok::<u32, ObjErrorKind>(v),
            Err(e) => spec_uint_arg(stv, tok_views(toks@)) == Err::<u32, ObjErrorKind>(e.kind),
        }),
{
    if !has_cur {
        return Err(ObjError::new(ObjErrorKind::DirectiveBeforeMaterial, w));
    }
    if toks.len() < 2 {
        return Err(ObjError::new(ObjErrorKind::MissingArgument, w));
    }
    match parse_uint(toks[1]) {
        Some(v) => {
            proof {
                assert(v == uint_token_val(tok_views(toks@)[1]) as u32);
            }
            Ok(v)
        },
        None => Err(ObjError::new(ObjErrorKind::MalformedNumber, toks[1])),
    }
}

/// Apply one MTL line to the parser state.
#[verifier::rlimit(100)]
fn mtl_process_line(st: MtlState, line: &str) -> (r: Result<MtlState, ObjError>)
    ensures
        (match r {
            Ok(st2) => spec_mtl_line(mtl_view(st), line@) == Ok::<MtlView, ObjErrorKind>(
                mtl_view(st2),
            ),
            Err(e) => spec_mtl_line(mtl_view(st), line@) == Err::<MtlView, ObjErrorKind>(e.kind),
        }),
{
    let ghost st0 = mtl_view(st);
    let toks = line_tokens(line);
    let ghost ts = spec_line_tokens(line@);
    proof {
        assert(tok_views(toks@) =~~= ts);
    }
    if toks.len() == 0 {
        return Ok(st);
    }
    let w = toks[0];
    proof {
        assert(w@ == ts[0]);
    }
    let has_cur = st.cur.is_some();
    if str_eq(w, "newmtl") {
        if toks.len() < 2 {
            return Err(ObjError::new(ObjErrorKind::MissingArgument, "newmtl"));
        }
        let MtlState { cur, mut mats } = st;
        if let Some(m) = cur {
            insert_mat(&mut mats, m);
        }
        let st2 = MtlState { cur: Some(new_material(toks[1])), mats };
        proof {
            assert(mtl_view(st2) =~~= spec_mtl_line(st0, line@)->Ok_0);
        }
        Ok(st2)
    } else if str_eq(w, "Ns") {
        let t = match scalar_arg(Ghost(st0), has_cur, &toks, w) {
            Ok(t) => t,
            Err(e) => return Err(e),
        };
        let MtlState { cur, mats } = st;
        let mut m = cur.unwrap();
        m.specular_exponent = Some(t);
        let st2 = MtlState { cur: Some(m), mats };
        proof {
            assert(mtl_view(st2) =~~= spec_mtl_line(st0, line@)->Ok_0);
        }
        Ok(st2)
    } else if str_eq(w, "Ni") {
        let t = match scalar_arg(Ghost(st0), has_cur, &toks, w) {
            Ok(t) => t,
            Err(e) => return Err(e),
        };
        let MtlState { cur, mats } = st;
        let mut m = cur.unwrap();
        m.optical_density = Some(t);
        let st2 = MtlState { cur: Some(m), mats };
        proof {
            assert(mtl_view(st2) =~~= spec_mtl_line(st0, line@)->Ok_0);
        }
        Ok(st2)
    } else if str_eq(w, "d") {
        let t = match scalar_arg(Ghost(st0), has_cur, &toks, w) {
            Ok(t) => t,
            Err(e) => return Err(e),
        };
        let MtlState { cur, mats } = st;
        let mut m = cur.unwrap();
        m.transparency = Some(Transparency::FromDissolve(t));
        let st2 = MtlState { cur: Some(m), mats };
        proof {
            assert(mtl_view(st2) =~~= spec_mtl_line(st0, line@)->Ok_0);
        }
        Ok(st2)
    } else if str_eq(w, "Tr") {
        let t = match scalar_arg(Ghost(st0), has_cur, &toks, w) {
            Ok(t) => t,
            Err(e) => return Err(e),
        };
        let MtlState { cur, mats } = st;
        let mut m = cur.unwrap();
        m.transparency = Some(Transparency::Given(t));
        let st2 = MtlState { cur: Some(m), mats };
        proof {
            assert(mtl_view(st2) =~~= spec_mtl_line(st0, line@)->Ok_0);
        }
        Ok(st2)
    } else if str_eq(w, "Tf") {
        let v = match vec3_arg(Ghost(st0), has_cur, &toks, w) {
            Ok(v) => v,
            Err(e) => return Err(e),
        };
        let MtlState { cur, mats } = st;
        let mut m = cur.unwrap();
        m.transmission_filter = Some(v);
        let st2 = MtlState { cur: Some(m), mats };
        proof {
            assert(mtl_view(st2) =~~= spec_mtl_line(st0, line@)->Ok_0);
        }
        Ok(st2)
    } else if str_eq(w, "illum") {
        let v = match uint_arg(Ghost(st0), has_cur, &toks, w) {
            Ok(v) => v,
            Err(e) => return Err(e),
        };
        let MtlState { cur, mats } = st;
        let mut m = cur.unwrap();
        m.illumination_model = Some(v);
        let st2 = MtlState { cur: Some(m), mats };
        proof {
            assert(mtl_view(st2) =~~= spec_mtl_line(st0, line@)->Ok_0);
        }
        Ok(st2)
    } else {
        mtl_line_rest(st, &toks, line, has_cur)
    }
}

/// The color and texture-map directives, and the unrecognized-directive
/// error; split from `mtl_process_line` only to keep each proof small.
#[verifier::rlimit(100)]
fn mtl_line_rest(st: MtlState, toks: &Vec<&str>, line: &str, has_cur: bool) -> (r: Result<
    MtlState,
    ObjError,
>)
    requires
        tok_views(toks@) == spec_line_tokens(line@),
        toks@.len() > 0,
        has_cur == (mtl_view(st).cur is Some),
        spec_line_tokens(line@)[0] != "newmtl"@,
        spec_line_tokens(line@)[0] != "Ns"@,
        spec_line_tokens(line@)[0] != "Ni"@,
        spec_line_tokens(line@)[0] != "d"@,
        spec_line_tokens(line@)[0] != "Tr"@,
        spec_line_tokens(line@)[0] != "Tf"@,
        spec_line_tokens(line@)[0] != "illum"@,
    ensures
        (match r {
            Ok(st2) => spec_mtl_line(mtl_view(st), line@) == Ok::<MtlView, ObjErrorKind>(
                mtl_view(st2),
            ),
            Err(e) => spec_mtl_line(mtl_view(st), line@) == Err::<MtlView, ObjErrorKind>(e.kind),
        }),
{
    let ghost st0 = mtl_view(st);
    let ghost ts = spec_line_tokens(line@);
    let w = toks[0];
    proof {
        assert(w@ == ts[0]);
    }
    if str_eq(w, "Ka") {
        let v = match vec3_arg(Ghost(st0), has_cur, &toks, w) {
            Ok(v) => v,
            Err(e) => return Err(e),
        };
        let MtlState { cur, mats } = st;
        let mut m = cur.unwrap();
        m.ambient_color = Some(v);
        let st2 = MtlState { cur: Some(m), mats };
        proof {
            assert(mtl_view(st2) =~~= spec_mtl_line(st0, line@)->Ok_0);
        }
        Ok(st2)
    } else if str_eq(w, "Kd") {
        let v = match vec3_arg(Ghost(st0), has_cur, &toks, w) {
            Ok(v) => v,
            Err(e) => return Err(e),
        };
        let MtlState { cur, mats } = st;
        let mut m = cur.unwrap();
        m.diffuse_color = Some(v);
        let st2 = MtlState { cur: Some(m), mats };
        proof {
            assert(mtl_view(st2) =~~= spec_mtl_line(st0, line@)->Ok_0);
        }
        Ok(st2)
    } else if str_eq(w, "Ke") {
        let v = match vec3_arg(Ghost(st0), has_cur, &toks, w) {
            Ok(v) => v,
            Err(e) => return Err(e),
        };
        let MtlState { cur, mats } = st;
        let mut m = cur.unwrap();
        m.emissive_color = Some(v);
        let st2 = MtlState { cur: Some(m), mats };
        proof {
            assert(mtl_view(st2) =~~= spec_mtl_line(st0, line@)->Ok_0);
        }
        Ok(st2)
    } else if str_eq(w, "Ks") {
        let v = match vec3_arg(Ghost(st0), has_cur, &toks, w) {
            Ok(v) => v,
            Err(e) => return Err(e),
        };
        let MtlState { cur, mats } = st;
        let mut m = cur.unwrap();
        m.specular_color = Some(v);
        let st2 = MtlState { cur: Some(m), mats };
        proof {
            assert(mtl_view(st2) =~~= spec_mtl_line(st0, line@)->Ok_0);
        }
        Ok(st2)
    } else if str_eq(w, "map_Ka") {
        let f = match name_arg(Ghost(st0), has_cur, &toks, w) {
            Ok(f) => f,
            Err(e) => return Err(e),
        };
        let MtlState { cur, mats } = st;
        let mut m = cur.unwrap();
        m.ambient_map_filename = Some(f);
        let st2 = MtlState { cur: Some(m), mats };
        proof {
            assert(mtl_view(st2) =~~= spec_mtl_line(st0, line@)->Ok_0);
        }
        Ok(st2)
    } else if str_eq(w, "map_Kd") {
        let f = match name_arg(Ghost(st0), has_cur, &toks, w) {
            Ok(f) => f,
            Err(e) => return Err(e),
        };
        let MtlState { cur, mats } = st;
        let mut m = cur.unwrap();
        m.diffuse_map_filename = Some(f);
        let st2 = MtlState { cur: Some(m), mats };
        proof {
            assert(mtl_view(st2) =~~= spec_mtl_line(st0, line@)->Ok_0);
        }
        Ok(st2)
    } else if str_eq(w, "map_d") {
        let f = match name_arg(Ghost(st0), has_cur, &toks, w) {
            Ok(f) => f,
            Err(e) => return Err(e),
        };
        let MtlState { cur, mats } = st;
        let mut m = cur.unwrap();
        m.transparency_map_filename = Some(f);
        let st2 = MtlState { cur: Some(m), mats };
        proof {
            assert(mtl_view(st2) =~~= spec_mtl_line(st0, line@)->Ok_0);
        }
        Ok(st2)
    } else if str_eq(w, "map_bump") || str_eq(w, "bump") {
        let f = match name_arg(Ghost(st0), has_cur, &toks, w) {
            Ok(f) => f,
            Err(e) => return Err(e),
        };
        let MtlState { cur, mats } = st;
        let mut m = cur.unwrap();
        m.bump_map_filename = Some(f);
        let st2 = MtlState { cur: Some(m), mats };
        proof {
            assert(mtl_view(st2) =~~= spec_mtl_line(st0, line@)->Ok_0);
        }
        Ok(st2)
    } else {
        Err(ObjError::new(ObjErrorKind::UnrecognizedDirective, w))
    }
}

/// Parse a whole MTL text into its material collection.
pub fn mtl_load(mtl_file: &str) -> (r: Result<ObjMaterialCollection, ObjError>)
    ensures
        (match r {
            Ok(c) => spec_mtl_load(mtl_file@) == Ok::<Seq<MaterialView>, ObjErrorKind>(c@),
            Err(e) => spec_mtl_load(mtl_file@) == Err::<Seq<MaterialView>, ObjErrorKind>(e.kind),
        }),
{
    let lines = split_lines(mtl_file);
    let ghost lv = spec_lines(mtl_file@);
    let mut st = MtlState { cur: None, mats: Vec::new() };
    proof {
        assert(mtl_view(st) =~~= MtlView { cur: None, mats: Seq::empty() });
    }
    let mut k: usize = 0;
    while k < lines.len()
        invariant
            k <= lines.len(),
            lines@.len() == lv.len(),
            forall|i: int| 0 <= i < lv.len() ==> lines@[i]@ == lv[i],
            lv == spec_lines(mtl_file@),
            spec_mtl_lines(MtlView { cur: None, mats: Seq::empty() }, lv, 0) == spec_mtl_lines(
                mtl_view(st),
                lv,
                k as int,
            ),
        decreases lines.len() - k,
    {
        let ghost pre = mtl_view(st);
        st = match mtl_process_line(st, lines[k]) {
            Ok(s) => s,
            Err(e) => {
                proof {
                    assert(lines@[k as int]@ == lv[k as int]);
                    assert(spec_mtl_lines(pre, lv, k as int) == Err::<MtlView, ObjErrorKind>(
                        e.kind,
                    ));
                }
                return Err(e);
            },
        };
        proof {
            assert(lines@[k as int]@ == lv[k as int]);
            assert(spec_mtl_lines(pre, lv, k as int) == spec_mtl_lines(mtl_view(st), lv, k as int + 1));
        }
        k += 1;
    }
    let ghost last = mtl_view(st);
    let MtlState { cur, mut mats } = st;
    if let Some(m) = cur {
        insert_mat(&mut mats, m);
    }
    let c = ObjMaterialCollection { materials: mats };
    proof {
        assert(c@ =~~= spec_mtl_finish(last));
    }
    Ok(c)
}

impl ObjMaterialCollection {
    /// Look a material up by name: the entry `spec_find_mat` points at.
    pub fn get(&self, name: &str) -> (r: Option<&ObjMaterial>)
        ensures
            (match r {
                Some(m) => {
                    &&& spec_find_mat(self@, name@) is Some
                    &&& m@ == self@[spec_find_mat(self@, name@)->0]
                },
                None => spec_find_mat(self@, name@) is None,
            }),
    {
        let mut i: usize = 0;
        while i < self.materials.len()
            invariant
                i <= self.materials.len(),
                forall|j: int| 0 <= j < i ==> self@[j].name != name@,
            decreases self.materials.len() - i,
        {
            if str_eq(self.materials[i].name.as_str(), name) {
                proof {
                    lemma_find_mat_is(self@, name@, i as int);
                }
                return Some(&self.materials[i]);
            }
            i += 1;
        }
        proof {
            lemma_find_mat_is(self@, name@, self@.len() as int);
        }
        None
    }
}

} // verus!
