use minnowsnap::fonts::filter_font_families;

fn names(v: &[&str]) -> Vec<String> {
    v.iter().map(|s| s.to_string()).collect()
}

#[test]
fn unsuitable_families_are_dropped_and_the_rest_sorted() {
    let all = names(&[
        "Ubuntu",
        "Noto Color Emoji",
        "DejaVu Sans",
        ".SF NS",
        "Segoe UI",
        "Arial",
        "Liberation Serif",
        "Cambria Math",
        "Liquid",
    ]);
    assert_eq!(filter_font_families(all), names(&["Arial", "Segoe UI", "Ubuntu"]));
}

#[test]
fn blocked_words_match_in_any_case() {
    let all = names(&["Quantum EMOJI", "Zeta", "Alpha"]);
    assert_eq!(filter_font_families(all), names(&["Alpha", "Zeta"]));
}

#[test]
fn no_families_gives_none() {
    assert!(filter_font_families(Vec::new()).is_empty());
}
