use catcrop::batch::{is_corpus_image, output_path, plan_item, Batch, ItemError};

#[test]
fn only_jpg_extension_is_taken() {
    assert!(is_corpus_image("jpg"));
    assert!(!is_corpus_image("JPG"));
    assert!(!is_corpus_image("jpeg"));
    assert!(!is_corpus_image("png"));
    assert!(!is_corpus_image(""));
    assert!(!is_corpus_image("jpgx"));
}

#[test]
fn output_path_pads_the_index() {
    assert_eq!(output_path("out", 5, 200), "out/00000005-200.jpg");
    assert_eq!(output_path("/tmp/dest", 0, 24), "/tmp/dest/00000000-24.jpg");
    assert_eq!(output_path("d", 123456789, 96), "d/123456789-96.jpg");
    assert_eq!(output_path("d", 12345678, 48), "d/12345678-48.jpg");
}

#[test]
fn plan_crops_and_names_four_thumbnails() {
    let plan = plan_item("2 0 0 100 50".to_string(), "out", 3).unwrap();
    assert_eq!(plan.crop, "110x110+0+0");
    let expected: Vec<(usize, String)> = vec![
        (200, "out/00000003-200.jpg".to_string()),
        (96, "out/00000003-96.jpg".to_string()),
        (48, "out/00000003-48.jpg".to_string()),
        (24, "out/00000003-24.jpg".to_string()),
    ];
    assert_eq!(plan.outputs, expected);
}

#[test]
fn plan_without_points_fails() {
    assert_eq!(plan_item("".to_string(), "out", 0).unwrap_err(), ItemError::NoLandmarks);
    assert_eq!(plan_item("1 abc 4".to_string(), "out", 0).unwrap_err(), ItemError::NoLandmarks);
}

#[test]
fn plan_with_unpaddable_points_fails() {
    let text = format!("2 0 0 {} 0", usize::MAX);
    assert_eq!(plan_item(text, "out", 0).unwrap_err(), ItemError::OutOfRange);
}

#[test]
fn failed_item_takes_no_index() {
    // three annotated images and one whose annotation is missing, from 5
    let items: Vec<Option<&str>> = vec![
        Some("2 10 10 60 60"),
        None,
        Some("3 10 20 30 40 50 60"),
        Some("1 5 5"),
    ];
    let mut batch = Batch::new(5);
    let mut written: Vec<String> = Vec::new();
    for item in items {
        let outcome = match item {
            Some(text) => plan_item(text.to_string(), "dest", batch.index()),
            None => Err(ItemError::AnnotationNotFound),
        };
        if let Ok(plan) = &outcome {
            for (_, path) in &plan.outputs {
                written.push(path.clone());
            }
        }
        batch.record(outcome.is_ok());
    }
    assert_eq!(batch.index(), 8);
    assert_eq!(written.len(), 12);
    let mut expected: Vec<String> = Vec::new();
    for index in ["00000005", "00000006", "00000007"] {
        for size in [200, 96, 48, 24] {
            expected.push(format!("dest/{}-{}.jpg", index, size));
        }
    }
    assert_eq!(written, expected);
}

#[test]
fn record_counts_only_successes() {
    let mut batch = Batch::new(0);
    batch.record(false);
    assert_eq!(batch.index(), 0);
    batch.record(true);
    batch.record(true);
    batch.record(false);
    assert_eq!(batch.index(), 2);
    assert_eq!(batch.next_index, 2);
}
