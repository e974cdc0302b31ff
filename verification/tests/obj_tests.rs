use obj_mesh::error::ObjErrorKind;
use obj_mesh::obj_file_loader::{obj_load, obj_load_raw, parse_f};
use obj_mesh::obj_renderable::Triangle;
use obj_mesh::ObjFaceCorner;

fn num(token: &str) -> f32 {
    token.parse::<f32>().unwrap()
}

#[test]
fn vertex_w_defaults_to_one() {
    let scene = obj_load_raw("v 1 2 3\nv 1 2 3 0.5").unwrap();
    assert_eq!(scene.vert_pos.len(), 2);
    assert_eq!(num(&scene.vert_pos[0].x), 1.0);
    assert_eq!(num(&scene.vert_pos[0].y), 2.0);
    assert_eq!(num(&scene.vert_pos[0].z), 3.0);
    assert_eq!(num(&scene.vert_pos[0].w), 1.0);
    assert_eq!(num(&scene.vert_pos[1].w), 0.5);
}

#[test]
fn repeated_corner_key_dedups_to_one_vertex() {
    let objs = obj_load("v 0 0 0\nvn 0 0 1\ng a\nf 1 1 1\nf 1 1 1").unwrap();
    assert_eq!(objs.len(), 1);
    let r = &objs[0];
    assert_eq!(r.v_pos.len(), 1);
    assert_eq!(r.inds.len(), 2);
    assert_eq!(r.inds[0], Triangle { a: 0, b: 0, c: 0 });
    assert_eq!(r.inds[1], Triangle { a: 0, b: 0, c: 0 });
}

#[test]
fn five_corner_polygon_fans_into_three_triangles() {
    let text = "v 0 0 0\nv 1 0 0\nv 1 1 0\nv 0 1 0\nv 0 2 0\n\
                vn 0 0 1\nvn 0 0 1\nvn 0 0 1\nvn 0 0 1\nvn 0 0 1\n\
                g poly\nf 1 2 3 4 5";
    let objs = obj_load(text).unwrap();
    assert_eq!(objs.len(), 1);
    let r = &objs[0];
    assert_eq!(r.v_pos.len(), 5);
    assert_eq!(
        r.inds,
        vec![
            Triangle { a: 0, b: 1, c: 2 },
            Triangle { a: 0, b: 2, c: 3 },
            Triangle { a: 0, b: 3, c: 4 },
        ]
    );
}

#[test]
fn empty_groups_vanish() {
    let objs = obj_load("v 0 0 0\nvn 0 0 1\ng a\ng b\nf 1 1 1\ng c").unwrap();
    assert_eq!(objs.len(), 1);
    assert_eq!(objs[0].name, "b");
}

#[test]
fn buffers_run_in_parallel() {
    let with_tx = "v 0 0 0\nv 1 0 0\nv 0 1 0\nvn 0 0 1\nvn 0 0 1\nvn 0 0 1\n\
                   vt 0 0\nvt 1 0\nvt 0 1\ng a\nf 1 2 3";
    for text in [with_tx, "v 0 0 0\nvn 0 0 1\ng a\nf 1 1 1"] {
        for r in obj_load(text).unwrap() {
            assert_eq!(r.v_pos.len(), r.v_norm.len());
            assert!(r.v_tx.is_empty() || r.v_tx.len() == r.v_pos.len());
        }
    }
}

#[test]
fn no_texcoords_leaves_texture_buffer_empty() {
    let objs = obj_load("v 0 0 0\nvn 0 0 1\ng a\nf 1 1 1").unwrap();
    assert!(objs[0].v_tx.is_empty());
    assert_eq!(objs[0].v_pos.len(), 1);
}

#[test]
fn corner_with_empty_texcoord_falls_back_to_position_index() {
    let face = parse_f(&vec!["f", "5//2"], None).unwrap();
    assert_eq!(
        face.corners[0],
        ObjFaceCorner { smooth_i: None, pos_i: 5, tx_i: 5, norm_i: 2 }
    );
}

#[test]
fn corner_with_unparsable_subindex_falls_back() {
    let face = parse_f(&vec!["f", "7/x/y"], None).unwrap();
    assert_eq!(
        face.corners[0],
        ObjFaceCorner { smooth_i: None, pos_i: 7, tx_i: 7, norm_i: 7 }
    );
}

#[test]
fn corner_extra_segments_are_ignored() {
    let face = parse_f(&vec!["f", "1/2/3/9"], None).unwrap();
    assert_eq!(
        face.corners[0],
        ObjFaceCorner { smooth_i: None, pos_i: 1, tx_i: 2, norm_i: 3 }
    );
}

#[test]
fn corner_with_bad_position_index_is_an_error() {
    let e = parse_f(&vec!["f", "x/1/1"], None).unwrap_err();
    assert_eq!(e.kind, ObjErrorKind::MalformedNumber);
}

#[test]
fn parse_twice_yields_identical_renderables() {
    let text = "v 0 0 0\nv 1 0 0\nv 0 1 0\nvn 0 0 1\nvn 1 0 0\nvn 0 1 0\n\
                vt 0 0\nvt 1 1\nvt 0 1\ng a\nusemtl metal\nf 1/2/3 2 3//1\n\
                g b\ns 4\nf 3 2 1 2";
    let a = obj_load(text).unwrap();
    let b = obj_load(text).unwrap();
    assert_eq!(a, b);
    let ra = obj_load_raw(text).unwrap();
    let rb = obj_load_raw(text).unwrap();
    assert_eq!(ra, rb);
}

#[test]
fn comments_and_unknown_directives_are_ignored() {
    let text = "# a header comment\nv 1 2 3 # trailing comment\nmtllib scene.mtl\n\
                o whatever\nvn 0 0 1\ng a\nf 1 1 1";
    let objs = obj_load(text).unwrap();
    assert_eq!(objs.len(), 1);
    assert_eq!(objs[0].v_pos.len(), 1);
}

#[test]
fn usemtl_reaches_the_renderable() {
    let objs = obj_load("v 0 0 0\nvn 0 0 1\ng a\nusemtl metal\nf 1 1 1").unwrap();
    assert_eq!(objs[0].mat_name.as_deref(), Some("metal"));
    assert_eq!(objs[0].name, "a");
}

#[test]
fn smoothing_groups_tag_corners() {
    let scene = obj_load_raw("v 0 0 0\nvn 0 0 1\ng a\ns 3\nf 1 1 1\ns off\nf 1 1 1\nf 1").unwrap();
    let faces = &scene.grps[0].faces;
    assert_eq!(faces[0].corners[0].smooth_i, Some(3));
    assert_eq!(faces[1].corners[0].smooth_i, None);
    assert_eq!(faces[2].corners.len(), 1);
}

#[test]
fn smoothing_group_with_bad_number_is_an_error() {
    let e = obj_load_raw("s x7").unwrap_err();
    assert_eq!(e.kind, ObjErrorKind::MalformedNumber);
    // `s` with no argument just clears the context
    assert!(obj_load_raw("s").is_ok());
}

#[test]
fn short_faces_yield_no_triangles() {
    let objs = obj_load("v 0 0 0\nv 1 0 0\nvn 0 0 1\ng a\nf 1 2\nf 1").unwrap();
    assert_eq!(objs.len(), 1);
    assert!(objs[0].inds.is_empty());
    assert!(objs[0].v_pos.is_empty());
}

#[test]
fn missing_arguments_are_reported() {
    for text in ["usemtl", "g", "v 1 2", "vt 1", "vn 1 2"] {
        let e = obj_load_raw(text).unwrap_err();
        assert_eq!(e.kind, ObjErrorKind::MissingArgument, "for {:?}", text);
    }
}

#[test]
fn malformed_numbers_are_reported() {
    for text in ["v a 2 3", "v 1 2 3 zz", "vt 1 b", "vn 1 2 c", "v 1.2.3 1 1"] {
        let e = obj_load_raw(text).unwrap_err();
        assert_eq!(e.kind, ObjErrorKind::MalformedNumber, "for {:?}", text);
    }
}

#[test]
fn float_tokens_follow_the_standard_grammar() {
    assert!(obj_load_raw("v inf -inf NaN\nv 1e5 .5 1.\nv +3 -0 1E-2").is_ok());
    assert!(obj_load_raw("v 1e 2 3").is_err());
    assert!(obj_load_raw("v . 2 3").is_err());
}

#[test]
fn out_of_range_indices_are_reported() {
    // position index past the pool
    let e = obj_load("v 0 0 0\nvn 0 0 1\ng a\nf 2 2 2").unwrap_err();
    assert_eq!(e.kind, ObjErrorKind::IndexOutOfRange);
    // index zero never addresses anything
    let e = obj_load("v 0 0 0\nvn 0 0 1\ng a\nf 0 0 0").unwrap_err();
    assert_eq!(e.kind, ObjErrorKind::IndexOutOfRange);
    // normal pool is empty but the fallback normal index is dereferenced
    let e = obj_load("v 0 0 0\ng a\nf 1 1 1").unwrap_err();
    assert_eq!(e.kind, ObjErrorKind::IndexOutOfRange);
    // texture indices are only dereferenced when the scene has texcoords
    let e = obj_load("v 0 0 0\nvn 0 0 1\nvt 0 0\ng a\nf 1/9/1 1 1").unwrap_err();
    assert_eq!(e.kind, ObjErrorKind::IndexOutOfRange);
}

#[test]
fn empty_input_yields_no_renderables() {
    assert_eq!(obj_load("").unwrap().len(), 0);
    assert_eq!(obj_load("\n\n# only comments\n").unwrap().len(), 0);
}

#[test]
fn faces_before_any_group_directive_use_the_unnamed_group() {
    let objs = obj_load("v 0 0 0\nvn 0 0 1\nf 1 1 1").unwrap();
    assert_eq!(objs.len(), 1);
    assert_eq!(objs[0].name, "");
}

#[test]
fn dedup_is_per_group() {
    let text = "v 0 0 0\nvn 0 0 1\ng a\nf 1 1 1\ng b\nf 1 1 1";
    let objs = obj_load(text).unwrap();
    assert_eq!(objs.len(), 2);
    assert_eq!(objs[0].v_pos.len(), 1);
    assert_eq!(objs[1].v_pos.len(), 1);
}

#[test]
fn carriage_returns_are_token_separators() {
    let scene = obj_load_raw("v 1 2 3\r\nv 4 5 6\r\n").unwrap();
    assert_eq!(scene.vert_pos.len(), 2);
    assert_eq!(scene.vert_pos[0].z, "3");
    assert_eq!(scene.vert_pos[1].z, "6");
}

#[test]
fn index_tokens_accept_a_plus_sign() {
    // the standard unsigned parser accepts a leading plus
    let scene = obj_load_raw("v 0 0 0\nvn 0 0 1\ns +5\nf +1 1 1").unwrap();
    assert_eq!(scene.grps[0].faces[0].corners[0].smooth_i, Some(5));
    assert_eq!(scene.grps[0].faces[0].corners[0].pos_i, 1);
}

#[test]
fn error_messages_locate_the_offender() {
    let e = obj_load_raw("v 1 2 bogus").unwrap_err();
    assert!(e.message().contains("bogus"));
}
