use desk::brand::{
    accent_family, brand_select_options, brand_settings_meta, brand_style, brand_style_from_row,
    logo_url, selected, ACCENT_COLORS, ACCENT_FAMILIES, BRAND_TOKEN_NAMES, PRIMARY_COLORS,
};
use serde_json::Value;

fn json(text: &str) -> Value {
    serde_json::from_str(text).unwrap()
}

#[test]
fn brand_settings_schema_is_a_bounded_single() {
    let meta = brand_settings_meta();
    assert_eq!(meta["name"], "brand_settings");
    assert_eq!(meta["issingle"], true);
    let fields = meta["fields"].as_array().expect("fields");
    assert_eq!(fields.len(), 5);
    assert_eq!(
        fields
            .iter()
            .map(|field| field["fieldname"].as_str().unwrap_or_default())
            .collect::<Vec<_>>(),
        [
            "primary_color",
            "accent_color",
            "corner_radius_scale",
            "font_family_name",
            "logo_url"
        ]
    );
    for field in &fields[..4] {
        assert_eq!(field["fieldtype"], "Select", "untyped brand field: {field}");
        let options = field["options"].as_array().expect("Select options");
        assert_eq!(
            options.first().and_then(serde_json::Value::as_str),
            Some("")
        );
        assert!(options.len() > 1, "brand vocabulary is empty: {field}");
    }
    assert_eq!(fields[4]["fieldtype"], "Data");
}

#[test]
fn the_schema_is_written_out() {
    assert_eq!(
        brand_settings_meta(),
        json(
            r##"{
                "name": "brand_settings",
                "label": "Brand Settings",
                "issingle": true,
                "fields": [
                    { "fieldname": "primary_color", "label": "Primary color",
                      "fieldtype": "Select",
                      "options": ["", "#171717", "#1d4ed8", "#047857", "#7c3aed", "#be123c"] },
                    { "fieldname": "accent_color", "label": "Accent color",
                      "fieldtype": "Select",
                      "options": ["", "#0d8ef8", "#2563eb", "#059669", "#7c3aed", "#db2777",
                                  "#d97706"] },
                    { "fieldname": "corner_radius_scale", "label": "Corner radius scale",
                      "fieldtype": "Select",
                      "options": ["", "compact", "comfortable", "rounded"] },
                    { "fieldname": "font_family_name", "label": "Font family",
                      "fieldtype": "Select",
                      "options": ["", "Inter", "System UI", "Georgia", "Verdana"] },
                    { "fieldname": "logo_url", "label": "Logo URL", "fieldtype": "Data" }
                ]
            }"##
        )
    );
    assert_eq!(brand_select_options(&["a", "b"]), ["", "a", "b"]);
}

#[test]
fn two_tenant_brand_rows_keep_content_provenance() {
    let tenant_a = json(
        r##"{
            "primary_color": "#1d4ed8",
            "accent_color": "#059669",
            "corner_radius_scale": "compact",
            "font_family_name": "Inter",
            "logo_url": "/assets/acme-mark.svg"
        }"##,
    );
    let tenant_b = json(
        r##"{
            "primary_color": "#be123c",
            "accent_color": "#7c3aed",
            "corner_radius_scale": "rounded",
            "font_family_name": "Georgia",
            "logo_url": "https://cdn.example.test/beta-mark.svg"
        }"##,
    );
    let a = brand_style_from_row(&tenant_a).expect("tenant A style");
    let b = brand_style_from_row(&tenant_b).expect("tenant B style");

    assert!(a.contains("--fui-primary-bg:#1d4ed8;"), "{a}");
    assert!(a.contains("--fui-blue:#059669;"), "{a}");
    assert!(
        a.contains("--fui-brand-logo-image:url(\"/assets/acme-mark.svg\");"),
        "{a}"
    );
    assert!(
        !a.contains("#be123c"),
        "tenant B primary leaked into A: {a}"
    );
    assert!(b.contains("--fui-primary-bg:#be123c;"), "{b}");
    assert!(b.contains("--fui-blue:#7c3aed;"), "{b}");
    assert!(
        b.contains("--fui-brand-logo-image:url(\"https://cdn.example.test/beta-mark.svg\");"),
        "{b}"
    );
    assert!(
        !b.contains("#1d4ed8"),
        "tenant A primary leaked into B: {b}"
    );
    assert_ne!(a, b);
}

#[test]
fn a_style_is_written_out() {
    let row = json(
        r##"{
            "primary_color": "#171717",
            "accent_color": "#d97706",
            "corner_radius_scale": "comfortable",
            "font_family_name": "System UI",
            "logo_url": "/m.svg?v=2&c=1"
        }"##,
    );
    assert_eq!(
        brand_style_from_row(&row).as_deref(),
        Some(
            ":root.fui-root{--fui-primary-bg:#171717;--fui-blue:#d97706;\
             --fui-blue-strong:#b45309;--fui-blue-ink:#b45309;--fui-blue-surface-1:#fdf6ec;\
             --fui-blue-surface-2:#fcecd0;--fui-blue-outline:#f6d99a;\
             --fui-focus-ring:rgba(217,119,6,0.30);--fui-radius-sm:4px;--fui-radius:6px;\
             --fui-radius-md:8px;--fui-radius-lg:12px;--fui-font:system-ui,sans-serif;\
             --fui-font-sans:var(--fui-font);\
             --fui-brand-logo-image:url(\"/m.svg?v=2&c=1\");\
             --fui-brand-logo-display:inline-block;}"
        )
    );
}

#[test]
fn named_choices_select_their_bundles() {
    for (field, word, css) in [
        (
            "corner_radius_scale",
            "compact",
            "--fui-radius-sm:2px;--fui-radius:4px;--fui-radius-md:6px;--fui-radius-lg:8px;",
        ),
        (
            "corner_radius_scale",
            "rounded",
            "--fui-radius-sm:8px;--fui-radius:10px;--fui-radius-md:14px;--fui-radius-lg:18px;",
        ),
        (
            "font_family_name",
            "Inter",
            "--fui-font:Inter,InterVar,system-ui,sans-serif;--fui-font-sans:var(--fui-font);",
        ),
        (
            "font_family_name",
            "Georgia",
            "--fui-font:Georgia,serif;--fui-font-sans:var(--fui-font);",
        ),
        (
            "font_family_name",
            "Verdana",
            "--fui-font:Verdana,sans-serif;--fui-font-sans:var(--fui-font);",
        ),
    ] {
        let row = json(&format!("{{\"{field}\":\"{word}\"}}"));
        assert_eq!(brand_style_from_row(&row), Some(format!(":root.fui-root{{{css}}}")));
    }
}

fn relative_luminance(hex: &str) -> f64 {
    let hex = hex.strip_prefix('#').expect("hex color");
    let channel = |i: usize| {
        let v = u8::from_str_radix(&hex[i..i + 2], 16).expect("hex channel") as f64 / 255.0;
        if v <= 0.03928 {
            v / 12.92
        } else {
            ((v + 0.055) / 1.055).powf(2.4)
        }
    };
    0.2126 * channel(0) + 0.7152 * channel(2) + 0.0722 * channel(4)
}

fn contrast_ratio(fg: &str, bg: &str) -> f64 {
    let (a, b) = (relative_luminance(fg), relative_luminance(bg));
    let (hi, lo) = if a >= b { (a, b) } else { (b, a) };
    (hi + 0.05) / (lo + 0.05)
}

fn token_names(family: &[(&'static str, &'static str); 7]) -> Vec<&'static str> {
    let mut names: Vec<&'static str> = family.iter().map(|(token, _)| *token).collect();
    names.sort_unstable();
    names
}

#[test]
fn every_accent_family_is_complete_and_its_ink_meets_aa() {
    // ink lands on the default page background
    let surface = "#ffffff";
    let aa_normal: f64 = 4.5;

    // every accent option resolves to a family, and every family shares one
    // token-name set: no accent may leave a member static blue
    let reference = token_names(accent_family(ACCENT_COLORS[0]).expect("first accent family"));
    assert_eq!(reference.len(), 7, "duplicate token in the reference family");
    for accent in ACCENT_COLORS {
        let family =
            accent_family(accent).unwrap_or_else(|| panic!("no family for accent {accent}"));
        assert_eq!(
            token_names(family),
            reference,
            "accent {accent} declares a different token set"
        );

        let ink = family
            .iter()
            .find_map(|(token, value)| (*token == "--fui-blue-ink").then_some(*value))
            .expect("family declares --fui-blue-ink");
        let ratio = contrast_ratio(ink, surface);
        assert!(
            ratio >= aa_normal,
            "accent {accent} ink {ink} is {ratio:.2}:1 on {surface}, below AA {aa_normal}:1"
        );
    }

    // the Select vocabulary and the family table are the same closed set
    assert_eq!(ACCENT_FAMILIES.len(), ACCENT_COLORS.len());
    for family in ACCENT_FAMILIES {
        assert!(
            ACCENT_COLORS.contains(&family[0].1),
            "family {} has no matching accent option",
            family[0].1
        );
    }
    assert!(accent_family("#000000").is_none());
}

#[test]
fn unset_brand_settings_emit_no_style_content() {
    assert_eq!(brand_style_from_row(&json("{}")), None);
    assert_eq!(
        brand_style_from_row(&json(
            r#"{
                "primary_color": "",
                "accent_color": "",
                "corner_radius_scale": "",
                "font_family_name": "",
                "logo_url": ""
            }"#
        )),
        None
    );
}

#[test]
fn out_of_vocabulary_brand_data_is_not_css() {
    let row = json(r#"{ "primary_color": "</style><script>alert(1)</script>" }"#);
    assert_eq!(brand_style_from_row(&row), None);
}

#[test]
fn logo_url_cannot_escape_its_fixed_token_mapping() {
    for logo_url in [
        "javascript:alert(1)",
        "data:image/svg+xml,<svg onload=alert(1)>",
        "https://cdn.example/x.svg\");color:red;--owned:url(\"x",
        "//foreign.example/x.svg",
    ] {
        let mut row = json("{}");
        row["logo_url"] = Value::from(logo_url);
        assert_eq!(
            brand_style_from_row(&row),
            None,
            "unsafe logo entered CSS: {logo_url}"
        );
    }
}

#[test]
fn a_logo_is_bounded_and_plain() {
    let longest = format!("/{}", "a".repeat(2047));
    let mut row = json("{}");
    row["logo_url"] = Value::from(longest.as_str());
    assert_eq!(logo_url(&row), Some(longest.as_str()));
    row["logo_url"] = Value::from(format!("{longest}a"));
    assert_eq!(logo_url(&row), None);
    for bad in ["/a b", "/é", "/a'b", "/a(b", "http://x/y", "x/y", "/a;b", "/\u{7f}"] {
        row["logo_url"] = Value::from(bad);
        assert_eq!(logo_url(&row), None, "{bad}");
    }
    for good in ["/", "https://", "https://h/a?b=c&d=%20#[e]@!$*+,~_-.:", "/a//b"] {
        row["logo_url"] = Value::from(good);
        assert_eq!(logo_url(&row), Some(good));
    }
    row["logo_url"] = Value::from(7);
    assert_eq!(logo_url(&row), None);
}

#[test]
fn a_choice_is_a_text_of_the_vocabulary() {
    let row = json(r##"{ "primary_color": "#047857", "n": 1, "empty": "" }"##);
    assert_eq!(selected(&row, "primary_color", PRIMARY_COLORS), Some("#047857"));
    assert_eq!(selected(&row, "primary_color", ACCENT_COLORS), None);
    assert_eq!(selected(&row, "n", PRIMARY_COLORS), None);
    assert_eq!(selected(&row, "missing", PRIMARY_COLORS), None);
    assert_eq!(selected(&row, "empty", PRIMARY_COLORS), None);
    assert_eq!(selected(&json("[]"), "primary_color", PRIMARY_COLORS), None);
}

#[test]
fn a_failed_read_gives_no_style() {
    let body = json(r##"{ "row": { "primary_color": "#1d4ed8" } }"##);
    assert_eq!(
        brand_style(200, &body).as_deref(),
        Some(":root.fui-root{--fui-primary-bg:#1d4ed8;}")
    );
    assert_eq!(brand_style(500, &body), None);
    assert_eq!(brand_style(200, &json("{}")), None);
    assert_eq!(brand_style(200, &json(r#"{ "row": {} }"#)), None);
}

#[test]
fn a_style_is_harmless_and_sets_known_tokens_alone() {
    for accent in ACCENT_COLORS {
        let row = json(&format!(
            "{{\"accent_color\":\"{accent}\",\"font_family_name\":\"Inter\",\"logo_url\":\"/x\"}}"
        ));
        let css = brand_style_from_row(&row).unwrap();
        assert!(css.chars().all(|c| (' '..='~').contains(&c) && !"<>\\'".contains(c)));
        let inner = css.strip_prefix(":root.fui-root{").unwrap().strip_suffix(";}").unwrap();
        for part in inner.split(';') {
            let (token, _) = part.split_once(':').unwrap();
            assert!(BRAND_TOKEN_NAMES.contains(&token), "{token}");
        }
    }
}

#[test]
fn a_style_is_one_rule_with_each_token_once() {
    let whole = json(
        r##"{
            "primary_color": "#be123c",
            "accent_color": "#db2777",
            "corner_radius_scale": "rounded",
            "font_family_name": "Verdana",
            "logo_url": "https://h/a?b=c&d"
        }"##,
    );
    let plain = json(r##"{ "primary_color": "#171717", "font_family_name": "Inter" }"##);
    for (row, quotes, tokens) in [(whole, 2, 16), (plain, 0, 3)] {
        let css = brand_style_from_row(&row).unwrap();
        assert_eq!(css.matches('{').count(), 1);
        assert_eq!(css.matches('}').count(), 1);
        assert_eq!(css.matches('"').count(), quotes);
        let inner = css.strip_prefix(":root.fui-root{").unwrap().strip_suffix(";}").unwrap();
        let mut set: Vec<&str> = inner.split(';').map(|p| p.split_once(':').unwrap().0).collect();
        assert_eq!(set.len(), tokens);
        set.sort_unstable();
        set.dedup();
        assert_eq!(set.len(), tokens);
    }
}
