use printing_press::batch::{is_ink_source, module_name, output_file_name};

#[test]
fn test_ink_extension_selected() {
    assert!(is_ink_source(Some("ink")));
    assert!(!is_ink_source(Some("inkc")));
    assert!(!is_ink_source(Some("INK")));
    assert!(!is_ink_source(Some("in")));
    assert!(!is_ink_source(Some("")));
    assert!(!is_ink_source(None));
}

#[test]
fn test_module_and_output_names() {
    assert_eq!(module_name(Some("main")), "main");
    assert_eq!(module_name(None), "unknown");
    assert_eq!(output_file_name("main"), "main.inkc");
    assert_eq!(output_file_name(module_name(None)), "unknown.inkc");
}
