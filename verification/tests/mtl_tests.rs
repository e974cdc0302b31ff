use obj_mesh::error::ObjErrorKind;
use obj_mesh::mtl_file_loader::{mtl_load, ObjMaterial, Transparency};

fn num(token: &str) -> f32 {
    token.parse::<f32>().unwrap()
}

fn effective_transparency(m: &ObjMaterial) -> Option<f32> {
    m.transparency.as_ref().map(|t| match t {
        Transparency::FromDissolve(tok) => 1.0 - num(tok),
        Transparency::Given(tok) => num(tok),
    })
}

#[test]
fn dissolve_is_inverted_but_tr_is_not() {
    let c = mtl_load("newmtl a\nd 0.25\nnewmtl b\nTr 0.25").unwrap();
    let a = c.get("a").unwrap();
    let b = c.get("b").unwrap();
    assert_eq!(effective_transparency(a), Some(0.75));
    assert_eq!(effective_transparency(b), Some(0.25));
}

#[test]
fn scalar_directive_before_newmtl_fails() {
    let e = mtl_load("Ns 10").unwrap_err();
    assert_eq!(e.kind, ObjErrorKind::DirectiveBeforeMaterial);
    let e = mtl_load("Ka 1 1 1").unwrap_err();
    assert_eq!(e.kind, ObjErrorKind::DirectiveBeforeMaterial);
    let e = mtl_load("map_Kd tex.png").unwrap_err();
    assert_eq!(e.kind, ObjErrorKind::DirectiveBeforeMaterial);
}

#[test]
fn unrecognized_directive_fails() {
    let e = mtl_load("newmtl a\nshiny very").unwrap_err();
    assert_eq!(e.kind, ObjErrorKind::UnrecognizedDirective);
}

#[test]
fn a_full_material_block() {
    let text = "newmtl steel\nNs 96.08\nNi 1.5\nd 0.9\nillum 2\n\
                Ka 0.1 0.1 0.1\nKd 0.5 0.5 0.6\nKs 0.9 0.9 0.9\nKe 0 0 0\nTf 1 1 1\n\
                map_Ka amb.png\nmap_Kd dif.png\nmap_d alpha.png\nmap_bump bump.png";
    let c = mtl_load(text).unwrap();
    assert_eq!(c.materials.len(), 1);
    let m = c.get("steel").unwrap();
    assert_eq!(num(m.specular_exponent.as_ref().unwrap()), 96.08);
    assert_eq!(num(m.optical_density.as_ref().unwrap()), 1.5);
    assert_eq!(effective_transparency(m), Some(1.0 - 0.9));
    assert_eq!(m.illumination_model, Some(2));
    let kd = m.diffuse_color.as_ref().unwrap();
    assert_eq!((num(&kd.x), num(&kd.y), num(&kd.z)), (0.5, 0.5, 0.6));
    let tf = m.transmission_filter.as_ref().unwrap();
    assert_eq!(num(&tf.x), 1.0);
    assert!(m.ambient_color.is_some());
    assert!(m.specular_color.is_some());
    assert!(m.emissive_color.is_some());
    assert_eq!(m.ambient_map_filename.as_deref(), Some("amb.png"));
    assert_eq!(m.diffuse_map_filename.as_deref(), Some("dif.png"));
    assert_eq!(m.transparency_map_filename.as_deref(), Some("alpha.png"));
    assert_eq!(m.bump_map_filename.as_deref(), Some("bump.png"));
}

#[test]
fn bump_and_map_bump_write_the_same_field() {
    let c = mtl_load("newmtl a\nbump b.png").unwrap();
    assert_eq!(c.get("a").unwrap().bump_map_filename.as_deref(), Some("b.png"));
    let c = mtl_load("newmtl a\nmap_bump m.png").unwrap();
    assert_eq!(c.get("a").unwrap().bump_map_filename.as_deref(), Some("m.png"));
}

#[test]
fn backslashes_in_filenames_become_forward_slashes() {
    let c = mtl_load("newmtl a\nmap_Kd tex\\sub\\dif.png").unwrap();
    assert_eq!(
        c.get("a").unwrap().diffuse_map_filename.as_deref(),
        Some("tex/sub/dif.png")
    );
}

#[test]
fn later_directives_overwrite_earlier_ones() {
    let c = mtl_load("newmtl a\nNs 1\nNs 2\nd 0.5\nTr 0.3").unwrap();
    let m = c.get("a").unwrap();
    assert_eq!(num(m.specular_exponent.as_ref().unwrap()), 2.0);
    assert_eq!(effective_transparency(m), Some(0.3));
}

#[test]
fn a_second_block_with_the_same_name_overwrites_the_first() {
    let c = mtl_load("newmtl a\nNs 1\nnewmtl a\nNi 9").unwrap();
    assert_eq!(c.materials.len(), 1);
    let m = c.get("a").unwrap();
    assert!(m.specular_exponent.is_none());
    assert_eq!(num(m.optical_density.as_ref().unwrap()), 9.0);
}

#[test]
fn mtl_missing_and_malformed_arguments() {
    assert_eq!(mtl_load("newmtl").unwrap_err().kind, ObjErrorKind::MissingArgument);
    assert_eq!(mtl_load("newmtl a\nNs").unwrap_err().kind, ObjErrorKind::MissingArgument);
    assert_eq!(mtl_load("newmtl a\nNs x").unwrap_err().kind, ObjErrorKind::MalformedNumber);
    assert_eq!(mtl_load("newmtl a\nKa 1 2").unwrap_err().kind, ObjErrorKind::MissingArgument);
    assert_eq!(mtl_load("newmtl a\nKa 1 2 z").unwrap_err().kind, ObjErrorKind::MalformedNumber);
    assert_eq!(mtl_load("newmtl a\nillum x").unwrap_err().kind, ObjErrorKind::MalformedNumber);
    assert_eq!(mtl_load("newmtl a\nillum 2.5").unwrap_err().kind, ObjErrorKind::MalformedNumber);
    assert_eq!(mtl_load("newmtl a\nmap_Kd").unwrap_err().kind, ObjErrorKind::MissingArgument);
}

#[test]
fn comments_and_blank_lines_are_skipped() {
    let c = mtl_load("# library\n\nnewmtl a # opens a block\n\nNs 7 # exponent\n").unwrap();
    assert_eq!(num(c.get("a").unwrap().specular_exponent.as_ref().unwrap()), 7.0);
}

#[test]
fn empty_input_yields_no_materials() {
    let c = mtl_load("").unwrap();
    assert!(c.materials.is_empty());
    assert!(c.get("a").is_none());
}

#[test]
fn several_materials_are_all_kept() {
    let c = mtl_load("newmtl a\nNs 1\nnewmtl b\nNs 2\nnewmtl c\nNs 3").unwrap();
    assert_eq!(c.materials.len(), 3);
    assert_eq!(num(c.get("b").unwrap().specular_exponent.as_ref().unwrap()), 2.0);
    assert!(c.get("d").is_none());
}

#[test]
fn mtl_parsing_is_deterministic() {
    let text = "newmtl a\nNs 1\nKa 0.1 0.2 0.3\nnewmtl b\nmap_Kd a\\b.png";
    let a = mtl_load(text).unwrap();
    let b = mtl_load(text).unwrap();
    assert_eq!(a.materials, b.materials);
}
