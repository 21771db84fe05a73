use brush::ply::{
    check_chunked_layout, check_chunked_sh, check_plain_layout, chunk_of_vertex, decide_ply_format,
    delta_element, delta_frame_count, emit_after_vertex, emit_before_delta_vertex,
    interleave_coeffs, keep_vertex, property_key, readable_key, rest_at, store_rest, up_axis,
    update_every, vertex_channels, yield_check_due, DeltaElement, PackedField, PlyElementInfo,
    PlyFormat, PlyHeaderError, PlyHeaderInfo, PropertyKey, UpAxis,
};

fn el(name: &str, props: &[&str]) -> PlyElementInfo {
    PlyElementInfo {
        name: name.to_string(),
        count: 1,
        properties: props.iter().map(|p| p.to_string()).collect(),
    }
}

fn header(names: &[&str]) -> PlyHeaderInfo {
    PlyHeaderInfo { elements: names.iter().map(|n| el(n, &[])).collect(), comments: vec![] }
}

#[test]
fn format_detection() {
    assert_eq!(decide_ply_format(&header(&["vertex"])), Ok(PlyFormat::Ply));
    assert_eq!(decide_ply_format(&header(&["chunk", "vertex", "sh"])), Ok(PlyFormat::SuperSplatCompressed));
    assert_eq!(
        decide_ply_format(&header(&["vertex", "meta_delta_min_0", "delta_vertex_"])),
        Ok(PlyFormat::Brush4DCompressed)
    );
    // Only an element named exactly `delta_vertex_` marks the delta layout.
    assert_eq!(decide_ply_format(&header(&["vertex", "delta_vertex_0"])), Ok(PlyFormat::Ply));
    assert_eq!(decide_ply_format(&header(&["face"])), Err(PlyHeaderError::UnknownFormat));
    assert_eq!(decide_ply_format(&header(&[])), Err(PlyHeaderError::UnknownFormat));
}

#[test]
fn layout_checks() {
    assert_eq!(check_plain_layout(&header(&[])), Err(PlyHeaderError::NoElements));
    assert_eq!(check_plain_layout(&header(&["face", "vertex"])), Err(PlyHeaderError::FirstNotVertex));
    assert_eq!(check_plain_layout(&header(&["vertex", "face"])), Ok(()));
    assert_eq!(check_chunked_layout(&header(&[])), Err(PlyHeaderError::NotEnoughElements));
    assert_eq!(check_chunked_layout(&header(&["vertex"])), Err(PlyHeaderError::FirstNotChunk));
    assert_eq!(check_chunked_layout(&header(&["chunk"])), Err(PlyHeaderError::NotEnoughElements));
    assert_eq!(check_chunked_layout(&header(&["chunk", "sh"])), Err(PlyHeaderError::SecondNotVertex));
    assert_eq!(check_chunked_layout(&header(&["chunk", "vertex"])), Ok(()));
    assert_eq!(check_chunked_sh(&header(&["chunk", "vertex"])), Ok(false));
    assert_eq!(check_chunked_sh(&header(&["chunk", "vertex", "sh"])), Ok(true));
    assert_eq!(check_chunked_sh(&header(&["chunk", "vertex", "x"])), Err(PlyHeaderError::ThirdNotSh));
}

#[test]
fn up_axis_from_last_matching_comment() {
    let c = |v: &[&str]| -> Vec<String> { v.iter().map(|s| s.to_string()).collect() };
    assert_eq!(up_axis(&c(&["Vertical Axis: Z"])), Some(UpAxis::Z));
    assert_eq!(up_axis(&c(&["vertical axis: x", "vertical axis: y"])), Some(UpAxis::NegY));
    assert_eq!(up_axis(&c(&["vertical axis: x", "made by brush"])), Some(UpAxis::X));
    assert_eq!(up_axis(&c(&["vertical axis: w"])), None);
    assert_eq!(up_axis(&c(&[])), None);
}

#[test]
fn property_keys() {
    assert_eq!(property_key("packed_color"), PropertyKey::Packed(PackedField::Color));
    assert_eq!(property_key("y"), PropertyKey::Mean(1));
    assert_eq!(property_key("scale_2"), PropertyKey::LogScale(2));
    assert_eq!(property_key("rot_0"), PropertyKey::Rot(0));
    assert_eq!(property_key("f_dc_1"), PropertyKey::ShDc(1));
    assert_eq!(property_key("blue"), PropertyKey::Color(2));
    assert_eq!(property_key("opacity"), PropertyKey::Opacity);
    assert_eq!(property_key("f_rest_44"), PropertyKey::ShRest(Some(44)));
    assert_eq!(property_key("f_rest_"), PropertyKey::ShRest(None));
    assert_eq!(property_key("f_rest_4294967296"), PropertyKey::ShRest(None));
    assert_eq!(property_key("nx"), PropertyKey::Other);
}

#[test]
fn readable_keys_find_written_fields() {
    for k in ["x", "z", "scale_0", "opacity", "rot_3", "f_dc_2", "f_rest_7", "f_rest_4294967295"] {
        assert_eq!(readable_key(k), Some(property_key(k)), "key {}", k);
    }
    assert_eq!(readable_key("red"), None);
    assert_eq!(readable_key("packed_scale"), None);
    assert_eq!(readable_key("f_rest_x"), None);
    assert_eq!(readable_key("normal"), None);
}

#[test]
fn coefficients_interleave() {
    let mut out: Vec<u32> = vec![99];
    // Three channels of two coefficients each, channel-major.
    interleave_coeffs((1, 2, 3), &vec![10, 11, 20, 21, 30, 31], &mut out);
    assert_eq!(out, vec![99, 1, 2, 3, 10, 20, 30, 11, 21, 31]);
    let mut out: Vec<u32> = vec![];
    interleave_coeffs((1, 2, 3), &vec![10, 20, 30, 40], &mut out);
    assert_eq!(out, vec![1, 2, 3, 10, 20, 30]);
}

#[test]
fn rest_storage_grows() {
    let mut v: Vec<i32> = vec![];
    store_rest(&mut v, 2, 7, 0);
    assert_eq!(v, vec![0, 0, 7]);
    store_rest(&mut v, 0, 5, 0);
    assert_eq!(v, vec![5, 0, 7]);
    assert_eq!(rest_at(&v, 2), Some(7));
    assert_eq!(rest_at(&v, 3), None);
}

#[test]
fn progress_cadence() {
    assert_eq!(update_every(0), 0);
    assert_eq!(update_every(1), 1);
    assert_eq!(update_every(20), 1);
    assert_eq!(update_every(21), 2);
    assert!(emit_after_vertex(9, 0, 5, 100));
    assert!(!emit_after_vertex(3, 0, 5, 100));
    assert!(emit_after_vertex(99, 98, 5, 100));
    assert!(emit_before_delta_vertex(4, 5));
    assert!(!emit_before_delta_vertex(5, 5));
    assert!(keep_vertex(6, Some(3)));
    assert!(!keep_vertex(7, Some(3)));
    assert!(keep_vertex(7, None));
    assert_eq!(chunk_of_vertex(255, 2), Some(0));
    assert_eq!(chunk_of_vertex(256, 2), Some(1));
    assert_eq!(chunk_of_vertex(512, 2), None);
}

#[test]
fn delta_elements() {
    assert_eq!(delta_element("vertex"), DeltaElement::Base);
    assert_eq!(delta_element("meta_delta_min_3"), DeltaElement::MetaMin);
    assert_eq!(delta_element("meta_delta_max_3"), DeltaElement::MetaMax);
    assert_eq!(delta_element("delta_vertex_3"), DeltaElement::Delta);
    assert_eq!(delta_element("face"), DeltaElement::Other);
    let h = header(&["vertex", "meta_delta_min_0", "delta_vertex_0", "delta_vertex_1", "face"]);
    assert_eq!(delta_frame_count(&h), 2);
}

#[test]
fn channels_of_vertex_element() {
    let c = vertex_channels(&el("vertex", &["x", "y", "z", "red", "opacity"]));
    assert!(!c.scales && !c.rotations && c.sh_coeffs && c.opacity);
    let c = vertex_channels(&el("vertex", &["scale_0", "rot_0", "f_dc_0"]));
    assert!(c.scales && c.rotations && c.sh_coeffs && !c.opacity);
}

#[test]
fn yield_checks_every_thousand_ticks() {
    let mut tick: usize = 0;
    let mut due = 0;
    for _ in 0..3000 {
        if yield_check_due(&mut tick) {
            due += 1;
        }
    }
    assert_eq!(due, 3);
}
