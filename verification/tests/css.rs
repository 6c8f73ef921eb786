use std::collections::BTreeMap;

use desk::css::{
    declared_properties, defined_properties, every_reference_is_defined, referenced_properties,
    selector_block, served_css,
};

/// A sample of portable rules, made up for these tests. It is not the stylesheet
/// that the Desk serves.
const SAMPLE_DESIGN_CSS: &str = r#":root {
  --fui-blue: #0d8ef8;
  --fui-font: Inter,system-ui,sans-serif;
  --fui-font-sans: var(--fui-font);
  --fui-surface: #ffffff;
  --fui-ink: #171717;
}

[data-theme="dark"] {
  --fui-surface: #171717;
  --fui-ink: #f5f5f5;
}

@media (prefers-color-scheme: dark) {
  :root:not([data-theme="light"]) {
    --fui-surface: #171717;
    --fui-ink: #f5f5f5;
  }
}
"#;

/// A sample of a frame's rules, made up for these tests.
const SAMPLE_CHROME_CSS: &str = r#"
.fui-root {
  background: var(--fui-surface);
  color: var(--fui-ink, black);
  font-family: var(--fui-font-sans);
}
"#;

fn sample() -> String {
    served_css(SAMPLE_DESIGN_CSS, SAMPLE_CHROME_CSS)
}

#[test]
fn every_custom_property_referenced_is_defined() {
    let css = sample();
    let defined = defined_properties(&css);
    let mut missing: Vec<String> = referenced_properties(&css)
        .into_iter()
        .filter(|p| !defined.contains(p))
        .collect();
    missing.sort_unstable();
    missing.dedup();
    assert!(
        missing.is_empty(),
        "custom properties referenced but never defined: {missing:?}"
    );
    assert!(every_reference_is_defined(&css));

    // the guard can fail: a typo is found
    let typo = css.replace("var(--fui-surface)", "var(--fui-surfaec)");
    assert!(!every_reference_is_defined(&typo));
}

fn declared(css: &str, selector: &str) -> BTreeMap<String, String> {
    let block = selector_block(css, selector).expect("a block");
    declared_properties(&block).into_iter().collect()
}

#[test]
fn preferred_dark_tokens_match_explicit_dark_tokens() {
    let css = sample();
    let explicit = declared(&css, "\n[data-theme=\"dark\"] {");
    let preferred = declared(&css, "\n  :root:not([data-theme=\"light\"]) {");
    assert!(
        !explicit.is_empty(),
        "explicit dark theme defines no tokens"
    );
    assert_eq!(
        preferred, explicit,
        "OS-driven dark mode must redeclare the complete explicit dark token set"
    );

    // the guard can fail: a token that only one theme redeclares is found
    let partial = css.replace("    --fui-ink: #f5f5f5;\n", "");
    let preferred = declared(&partial, "\n  :root:not([data-theme=\"light\"]) {");
    assert_ne!(preferred, explicit);
}

#[test]
fn the_served_text_is_both_texts_in_order() {
    assert_eq!(served_css("a", "b"), "ab");
    assert_eq!(sample(), format!("{SAMPLE_DESIGN_CSS}{SAMPLE_CHROME_CSS}"));
}

#[test]
fn a_line_defines_what_stands_before_its_colon() {
    assert_eq!(
        defined_properties("  --a: 1;\r\n--b:x:y\n --c\ncolor: red\n-- d : 2\n\n--e:"),
        ["--a", "--b", "-- d ", "--e"]
    );
    assert_eq!(defined_properties(""), Vec::<String>::new());
}

#[test]
fn a_reference_ends_at_a_comma_a_bracket_or_a_space() {
    assert_eq!(
        referenced_properties("a: var(--x) var(--y, 1) var(--z\t) var(-w) var(--"),
        ["--x", "--y", "--z", "--"]
    );
    assert_eq!(referenced_properties("var(--a-var(--b) var(--c)"), ["--a-var(--b", "--c"]);
    assert_eq!(referenced_properties("none"), Vec::<String>::new());
}

#[test]
fn what_is_read_and_not_defined_is_found() {
    assert!(!every_reference_is_defined("--a: 1;\nx: var(--a) var(--b);"));
    assert!(every_reference_is_defined("--a: 1;\nx: var(--a) var(--a);"));
    assert!(every_reference_is_defined(""));
}

#[test]
fn a_property_stands_once_with_its_last_value() {
    let css = "--a: 1;\n--b: 2;\n--a: 3;\n--c: 4;\n--b: 2;";
    assert_eq!(defined_properties(css), ["--a", "--b", "--c"]);
    assert_eq!(
        declared_properties(css),
        [
            ("a".to_string(), "3".to_string()),
            ("b".to_string(), "2".to_string()),
            ("c".to_string(), "4".to_string()),
        ]
    );
}

#[test]
fn a_block_stands_between_its_braces() {
    let css = ".a { x: 1 } .b { y { z } w } .a { other } .c { open";
    assert_eq!(selector_block(css, ".a").as_deref(), Some(" x: 1 "));
    assert_eq!(selector_block(css, ".b").as_deref(), Some(" y { z } w "));
    assert_eq!(selector_block(css, ".c"), None);
    assert_eq!(selector_block(css, ".d"), None);
    assert_eq!(selector_block(".e", ".e"), None);
}

#[test]
fn a_declaration_is_a_name_and_a_value() {
    assert_eq!(
        declared_properties("\n  --a: 1px ;;\n  color: red;\n --b:c:d\n --e: ;\n"),
        [
            ("a".to_string(), "1px ".to_string()),
            ("b".to_string(), "c:d".to_string()),
            ("e".to_string(), String::new()),
        ]
    );
}
