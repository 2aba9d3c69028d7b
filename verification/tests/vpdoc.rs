use rustpress::render::vpdoc::{vpdoc_class, VPDOC_CLASSES, VPDOC_CLASSES_2};

#[test]
fn vpdoc_classes_smoke() {
    for blob in [VPDOC_CLASSES, VPDOC_CLASSES_2] {
        assert!(!blob.starts_with(' '), "no leading space");
        assert!(!blob.ends_with(' '), "no trailing space");
        assert!(!blob.contains("  "), "no double spaces");
        assert!(blob.matches("[&_").count() > 100, "expected a full utility set");
        for (open, close) in [('[', ']'), ('(', ')')] {
            assert_eq!(blob.matches(open).count(), blob.matches(close).count(), "unbalanced {open}{close}");
        }
    }
}

#[test]
fn vpdoc_class_joins_with_single_spaces() {
    let c = vpdoc_class();
    assert!(c.starts_with("vp-doc [&_"));
    assert_eq!(c, format!("vp-doc {VPDOC_CLASSES} {VPDOC_CLASSES_2}"));
}
