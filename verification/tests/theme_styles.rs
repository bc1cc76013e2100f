use treelight::catalog::catalog_name;
use treelight::{ConfigCache, DecorationMode, Renderer, Style, Theme, ATTRIBUTE_COUNT};

fn idx(name: &str) -> usize {
    (0..ATTRIBUTE_COUNT)
        .find(|&i| catalog_name(i) == name)
        .expect("catalog name")
}

fn base_theme() -> Theme {
    Theme::new(String::from("#abb2bf"), String::from("#282c34"))
}

#[test]
fn styled_entry_gets_class_decoration() {
    let mut theme = base_theme();
    let kw = idx("keyword.function");
    theme.set_style(kw, Style::new(String::from("#61afef"), false, false));
    let renderer = Renderer::new(theme);
    assert_eq!(
        renderer.decorations[kw].as_deref(),
        Some("class=\"tsc-keyword_function\"")
    );
}

#[test]
fn styled_entry_gets_inline_decoration_with_color() {
    let mut theme = base_theme();
    let kw = idx("keyword");
    theme.set_style(kw, Style::new(String::from("#c678dd"), true, false));
    let renderer = Renderer::with_mode(theme, DecorationMode::InlineStyles);
    assert_eq!(
        renderer.decorations[kw].as_deref(),
        Some("style=\"color: #c678dd\"")
    );
}

#[test]
fn unstyled_entries_get_no_decoration() {
    let mut theme = base_theme();
    theme.set_style(idx("keyword"), Style::new(String::from("#c678dd"), false, false));
    let renderer = Renderer::new(theme);
    for i in 0..ATTRIBUTE_COUNT {
        if i == idx("keyword") {
            assert!(renderer.decorations[i].is_some());
        } else {
            assert!(renderer.decorations[i].is_none(), "entry {i}");
        }
    }
}

#[test]
fn stylesheet_holds_custom_property_and_bold_rule() {
    let mut theme = base_theme();
    theme.set_style(idx("keyword.control"), Style::new(String::from("#ff0000"), true, false));
    let renderer = Renderer::new(theme);
    let css = renderer.css();
    assert!(css.contains("--tsc-keyword_control: #ff0000; "));
    assert!(css.contains(
        ".tsc-keyword_control { color: var(--tsc-keyword_control); font-weight: bold;}"
    ));
}

#[test]
fn stylesheet_holds_globals_palette_and_structural_rule() {
    let mut theme = base_theme();
    theme.add_palette_entry(String::from("mygreen"), String::from("#98c379"));
    let mut theme2 = theme;
    theme2.set_style(idx("comment"), Style::new(String::from("#5c6370"), false, true));
    let renderer = Renderer::new(theme2);
    let css = renderer.css();
    assert!(css.starts_with(":root { --tsc-main-fg-color: #abb2bf; --tsc-main-bg-color: #282c34; "));
    assert!(css.contains("--mygreen: #98c379; "));
    assert!(css.contains(".tsc-comment { color: var(--tsc-comment); font-style: italic;}"));
    assert!(css.ends_with(".tsc-line { word-wrap: normal; white-space: pre; }\n"));
}

#[test]
fn stylesheet_skips_unstyled_entries() {
    let renderer = Renderer::new(base_theme());
    let css = renderer.css();
    assert_eq!(
        css,
        ":root { --tsc-main-fg-color: #abb2bf; --tsc-main-bg-color: #282c34; }\n.tsc-line { word-wrap: normal; white-space: pre; }\n"
    );
}

#[test]
fn catalog_has_fixed_order_and_dotted_names() {
    assert_eq!(catalog_name(0), "annotation");
    assert_eq!(catalog_name(idx("keyword.control")), "keyword.control");
    assert_eq!(catalog_name(idx("constant.numeric")), "constant.numeric");
    assert_ne!(idx("keyword"), idx("keyword.control"));
}

#[test]
fn cache_builds_each_language_once() {
    let mut cache: ConfigCache<u64> = ConfigCache::new();
    let mut builds = 0;
    for _ in 0..2 {
        if cache.lookup(7).is_none() {
            builds += 1;
            cache.store(7, 42);
        }
    }
    assert_eq!(builds, 1);
    assert_eq!(cache.lookup(7), Some(&42));
    assert!(cache.lookup(6).is_none());
}

#[test]
fn cache_failed_build_leaves_no_entry() {
    let mut cache: ConfigCache<u64> = ConfigCache::new();
    let attempt: Result<u64, ()> = Err(());
    if let Ok(cfg) = attempt {
        cache.store(3, cfg);
    }
    assert!(!cache.contains(3));
    cache.store(3, 9);
    assert!(cache.contains(3));
}
