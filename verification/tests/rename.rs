use wgsl_to_msl::rename::rename_entrypoint;

fn rename(source: &str, old_name: &str, new_name: &str) -> String {
    String::from_utf8(rename_entrypoint(source.as_bytes(), old_name.as_bytes(), new_name.as_bytes()))
        .unwrap()
}

#[test]
fn no_occurrence_means_identity() {
    let text = "struct main_Output { float4 member; };\nkernel void other() {}\n";
    assert_eq!(rename(text, "main_", "overlay_vertex"), text);
}

#[test]
fn empty_text_unchanged() {
    assert_eq!(rename("", "main_", "overlay_vertex"), "");
}

#[test]
fn vertex_only_changes_only_vertex_declaration() {
    let text = "struct main_Output {};\nvertex main_Output main_(uint idx) { return {}; }\n";
    let expected =
        "struct main_Output {};\nvertex main_Output overlay_fragment(uint idx) { return {}; }\n";
    assert_eq!(rename(text, "main_", "overlay_fragment"), expected);
}

#[test]
fn fragment_only_changes_only_fragment_declaration() {
    let text = "struct main_Output {};\nfragment main_Output main_(float4 pos) { return {}; }\n";
    let expected =
        "struct main_Output {};\nfragment main_Output overlay_fragment(float4 pos) { return {}; }\n";
    assert_eq!(rename(text, "main_", "overlay_fragment"), expected);
}

#[test]
fn both_declarations_are_rewritten() {
    let text = "vertex main_Output main_(uint i) {}\nfragment main_Output main_(float4 p) {}\n";
    let expected =
        "vertex main_Output overlay_fragment(uint i) {}\nfragment main_Output overlay_fragment(float4 p) {}\n";
    assert_eq!(rename(text, "main_", "overlay_fragment"), expected);
}

#[test]
fn repeated_occurrences_all_rewritten() {
    let text = "vertex main_Output main_(a)\nvertex main_Output main_(b)\n";
    let expected = "vertex main_Output main_vertex(a)\nvertex main_Output main_vertex(b)\n";
    assert_eq!(rename(text, "main_", "main_vertex"), expected);
}

#[test]
fn pattern_requires_exact_declaration_shape() {
    // The bare name, without the kind keyword and return type, is not a
    // declaration pattern and stays as it is.
    let text = "float4 x = main_(y);\n";
    assert_eq!(rename(text, "main_", "overlay_vertex"), text);
}
