use brush::delta_plan::{delta_plan, DeltaPlanError, DeltaReadState, DeltaStep};
use brush::ply::{PlyElementInfo, PlyHeaderInfo};

fn header(names: &[&str]) -> PlyHeaderInfo {
    PlyHeaderInfo {
        elements: names
            .iter()
            .map(|n| PlyElementInfo { name: n.to_string(), count: 1, properties: vec![] })
            .collect(),
        comments: vec![],
    }
}

#[test]
fn delta_plan_numbers_frames_in_order() {
    let h = header(&[
        "vertex",
        "meta_delta_min_0",
        "meta_delta_max_0",
        "delta_vertex_0",
        "meta_delta_min_1",
        "meta_delta_max_1",
        "delta_vertex_1",
        "extra",
    ]);
    let (steps, err) = delta_plan(&h);
    assert_eq!(err, None);
    assert_eq!(
        steps,
        vec![
            DeltaStep::ReadBase { frame: 0 },
            DeltaStep::ReadMetaMin,
            DeltaStep::ReadMetaMax,
            DeltaStep::ReadDelta { frame: 0 },
            DeltaStep::ReadMetaMin,
            DeltaStep::ReadMetaMax,
            DeltaStep::ReadDelta { frame: 1 },
            DeltaStep::Skip,
        ]
    );
}

#[test]
fn delta_plan_needs_the_base_first() {
    let h = header(&["meta_delta_min_0", "delta_vertex_0", "vertex"]);
    let (steps, err) = delta_plan(&h);
    assert_eq!(steps, vec![DeltaStep::ReadMetaMin]);
    assert_eq!(err, Some(DeltaPlanError::BaseMissing));
    assert_eq!(DeltaPlanError::BaseMissing.message(), "Need to read base splat first.");
}

#[test]
fn delta_read_state_steps() {
    let mut s = DeltaReadState::new();
    assert_eq!(s.step("delta_vertex_3"), Err(DeltaPlanError::BaseMissing));
    assert_eq!(s, DeltaReadState::new());
    assert_eq!(s.step("vertex"), Ok(DeltaStep::ReadBase { frame: 0 }));
    assert_eq!(s.step("delta_vertex_3"), Ok(DeltaStep::ReadDelta { frame: 0 }));
    assert_eq!(s.step("vertex"), Ok(DeltaStep::ReadBase { frame: 1 }));
    assert_eq!(s.frame, 1);
    assert!(s.base_read);
}
