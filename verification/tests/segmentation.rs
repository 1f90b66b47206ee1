use arm_backend::segmentation::{
    combine, merge_model_layers, remove_instances, run_placement_labels, segmentation_model, ManualRegion, ModelInfo,
    SegmentationError, SegmentationLayer,
};

fn layer(source: &str, ids: &[&str], labels: &[&str]) -> SegmentationLayer {
    SegmentationLayer {
        source: source.into(),
        instance_ids: ids.iter().map(|s| s.to_string()).collect(),
        placement_labels: labels.iter().map(|s| s.to_string()).collect(),
    }
}

fn region(id: &str, label: &str) -> ManualRegion {
    ManualRegion {
        id: id.into(),
        label: label.into(),
        box_in_image: true,
    }
}

#[test]
fn manual_and_both_models_compose_without_duplicate_layers() {
    let mut layers = vec![];
    let mut regions = vec![region("region-1", "自定义放置区")];
    let combined = combine(&layers, &regions).unwrap();
    assert_eq!(combined.instance_ids, vec!["manual:region-1".to_string()]);
    assert_eq!(combined.placement_labels, vec!["自定义放置区".to_string()]);

    for model in ["auto", "text", "auto"] {
        let id = format!("model:{model}:frame-0");
        merge_model_layers(&mut layers, &vec![layer(&format!("model:{model}"), &[id.as_str()], &["table"])]);
    }
    assert_eq!(layers.len(), 2);
    assert_eq!(layers[0].source, "model:text");
    assert_eq!(layers[1].source, "model:auto");

    let combined = combine(&layers, &regions).unwrap();
    assert_eq!(combined.instance_ids.len(), 3);
    assert_eq!(combined.placement_labels, vec!["table".to_string(), "自定义放置区".to_string()]);

    remove_instances(
        &mut layers,
        &mut regions,
        &combined.instance_ids,
        &vec!["model:text:frame-0".to_string()],
    )
    .unwrap();
    let combined = combine(&layers, &regions).unwrap();
    assert_eq!(combined.instance_ids.len(), 2);

    regions.clear();
    let combined = combine(&layers, &regions).unwrap();
    assert_eq!(combined.instance_ids, vec!["model:auto:frame-0".to_string()]);
}

#[test]
fn removing_a_manual_instance_removes_its_region() {
    let mut layers = vec![layer("model:auto", &["model:auto:cup-0"], &[])];
    let mut regions = vec![region("a", "left"), region("b", "right")];
    let current = combine(&layers, &regions).unwrap().instance_ids;
    remove_instances(&mut layers, &mut regions, &current, &vec!["manual:a".to_string()]).unwrap();
    assert_eq!(regions.len(), 1);
    assert_eq!(regions[0].id, "b");
    assert_eq!(layers[0].instance_ids, vec!["model:auto:cup-0".to_string()]);
}

#[test]
fn removing_an_unknown_instance_changes_nothing() {
    let mut layers = vec![layer("model:auto", &["model:auto:cup-0"], &[])];
    let mut regions = vec![region("a", "left")];
    let current = combine(&layers, &regions).unwrap().instance_ids;
    let result = remove_instances(
        &mut layers,
        &mut regions,
        &current,
        &vec!["model:auto:cup-0".to_string(), "gone".to_string()],
    );
    assert_eq!(result, Err(SegmentationError::MissingInstance));
    assert_eq!(result.unwrap_err().message(), "待移除实例已不存在");
    assert_eq!(layers[0].instance_ids.len(), 1);
    assert_eq!(regions.len(), 1);
}

#[test]
fn manual_region_validation_refuses_the_whole_edit() {
    assert_eq!(combine(&vec![], &vec![region("edge", " ")]), Err(SegmentationError::BlankRegion));
    assert_eq!(combine(&vec![], &vec![region("  ", "边缘")]), Err(SegmentationError::BlankRegion));
    let mut blank_label = region("edge", " ");
    blank_label.label = "边缘".into();
    blank_label.box_in_image = false;
    let err = combine(&vec![], &vec![blank_label]).unwrap_err();
    assert_eq!(err, SegmentationError::RegionOutsideImage);
    assert_eq!(err.message(), "标注框必须在当前图像范围内，并具有正宽高");
    let twice = combine(&vec![], &vec![region("edge", "边缘"), region("edge", "边缘")]).unwrap_err();
    assert_eq!(twice, SegmentationError::DuplicateRegion);
    assert_eq!(twice.message(), "标注编号重复");
    assert_eq!(SegmentationError::BlankRegion.message(), "标注编号和名称不能为空");
}

#[test]
fn the_first_faulty_region_decides_the_error() {
    let mut outside = region("x", "边缘");
    outside.box_in_image = false;
    let regions = vec![outside, region("", "a"), region("x", "b")];
    assert_eq!(combine(&vec![], &regions).unwrap_err(), SegmentationError::RegionOutsideImage);
}

#[test]
fn placement_labels_are_sorted_once_and_trimmed() {
    let layers = vec![layer("model:auto", &[], &["shelf", "table"]), layer("model:text", &[], &["bin", "table"])];
    let regions = vec![region("r", "  bin  ")];
    let combined = combine(&layers, &regions).unwrap();
    assert_eq!(
        combined.placement_labels,
        vec!["bin".to_string(), "shelf".to_string(), "table".to_string()]
    );
}


fn model(id: &str, prompt_free: bool) -> ModelInfo {
    ModelInfo { id: id.into(), prompt_free }
}

#[test]
fn the_configured_model_or_the_catalog_default_is_used() {
    let catalog = vec![model("auto", true), model("text", false)];
    let chosen = segmentation_model(Some("text"), "auto", &catalog).ok().unwrap();
    assert_eq!(chosen.model, "text");
    assert!(!chosen.prompt_free);
    let default = segmentation_model(None, "auto", &catalog).ok().unwrap();
    assert_eq!(default.model, "auto");
    assert!(default.prompt_free);
    let unknown = segmentation_model(Some("sam"), "auto", &catalog).err().unwrap();
    assert_eq!(unknown.model, "sam");
    assert_eq!(unknown.message(), "未知分割模型 sam");
}

#[test]
fn prompt_free_models_place_on_their_own_labels() {
    let found = vec!["cup".to_string(), "table".to_string()];
    let configured = vec!["shelf".to_string()];
    assert_eq!(run_placement_labels(true, &found, &configured), found);
    assert_eq!(run_placement_labels(false, &found, &configured), configured);
}
