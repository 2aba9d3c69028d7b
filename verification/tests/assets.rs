use rustpress::palettes::{available, css, palettes, DEFAULT_NAME};
use rustpress::theme_assets::bundled_themes;

#[test]
fn palettes_by_name() {
    assert!(css("green").unwrap().contains("--vp-c-green-1"));
    assert!(css("mono").unwrap().contains(".dark"));
    assert!(css("vitepress").is_none());
    assert_eq!(available(), "vitepress (default), green, purple, orange, mono");
    assert_eq!(DEFAULT_NAME, "vitepress");
    let names: Vec<&str> = palettes().iter().map(|p| p.name).collect();
    assert_eq!(names, vec!["green", "purple", "orange", "mono"]);
}

#[test]
fn bundled_theme_names_are_sorted_stems() {
    let files: Vec<String> = ["vitepress.css", "themes/zen.css", "js/app.js", "themes/aurora.css", "themes/readme.md", "themes/mid.css"]
        .iter()
        .map(|s| s.to_string())
        .collect();
    assert_eq!(bundled_themes(&files), vec!["aurora".to_string(), "mid".to_string(), "zen".to_string()]);
}
