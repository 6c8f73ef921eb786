//! Tenant brand settings: a stored row of closed choices and one logo, mapped
//! onto the fixed tokens of the stylesheet.
use vstd::prelude::*;
use vstd::string::*;
use crate::json::{
    array, boolean, get_text, index, json_view, member_or_null, object, object_view, pair_views_of,
    string, text_member, views_of, JsonView,
};
use crate::text::{begins_with, chars_of, join, joined, same_text, starts_with};
use serde_json::Value;

verus! {

/// The DocType that holds a tenant's brand.
pub const BRAND_SETTINGS: &'static str = "brand_settings";

/// The kernel route that reads a tenant's brand.
pub const BRAND_ROUTE: &'static str = "/single/brand_settings";

/// The primary colors to choose from.
pub const PRIMARY_COLORS: &'static [&'static str; 5] = &[
    "#171717",
    "#1d4ed8",
    "#047857",
    "#7c3aed",
    "#be123c",
];

/// The accent colors to choose from.
pub const ACCENT_COLORS: &'static [&'static str; 6] = &[
    "#0d8ef8",
    "#2563eb",
    "#059669",
    "#7c3aed",
    "#db2777",
    "#d97706",
];

/// The corner radius scales to choose from.
pub const RADIUS_SCALES: &'static [&'static str; 3] = &["compact", "comfortable", "rounded"];

/// The font families to choose from.
pub const FONT_FAMILIES: &'static [&'static str; 4] = &["Inter", "System UI", "Georgia", "Verdana"];

/// One complete accent token family per accent option.
///
/// The accent of the stylesheet is not one variable but a family: a surface, a
/// `strong` for hover and active, an `ink` for text and links, two tinted
/// surfaces, an outline and a focus ring. The vocabulary is closed, so each
/// option carries its whole family, and no member is left in another color.
///
/// Every `--fui-blue-ink` is meant to clear the contrast of 4.5 to 1 on a white
/// surface; a test computes it.
///
/// Position 0 of each family is `("--fui-blue", <the accent option>)`, so the
/// option that a stored row selects is the family's own lookup key.
pub const ACCENT_FAMILIES: &'static [[(&'static str, &'static str); 7]; 6] = &[
    [
        ("--fui-blue", "#0d8ef8"),
        ("--fui-blue-strong", "#077ddf"),
        ("--fui-blue-ink", "#0e6fbf"),
        ("--fui-blue-surface-1", "#f1f8fe"),
        ("--fui-blue-surface-2", "#e6f4ff"),
        ("--fui-blue-outline", "#b5ddfd"),
        ("--fui-focus-ring", "rgba(13,142,248,0.30)"),
    ],
    [
        ("--fui-blue", "#2563eb"),
        ("--fui-blue-strong", "#1d4ed8"),
        ("--fui-blue-ink", "#1d4ed8"),
        ("--fui-blue-surface-1", "#eff4ff"),
        ("--fui-blue-surface-2", "#dbe6fe"),
        ("--fui-blue-outline", "#bfd0fb"),
        ("--fui-focus-ring", "rgba(37,99,235,0.30)"),
    ],
    [
        ("--fui-blue", "#059669"),
        ("--fui-blue-strong", "#047857"),
        ("--fui-blue-ink", "#047857"),
        ("--fui-blue-surface-1", "#eefbf4"),
        ("--fui-blue-surface-2", "#d5f5e3"),
        ("--fui-blue-outline", "#a7e8c6"),
        ("--fui-focus-ring", "rgba(5,150,105,0.30)"),
    ],
    [
        ("--fui-blue", "#7c3aed"),
        ("--fui-blue-strong", "#6d28d9"),
        ("--fui-blue-ink", "#6d28d9"),
        ("--fui-blue-surface-1", "#f6f2fe"),
        ("--fui-blue-surface-2", "#ede4fd"),
        ("--fui-blue-outline", "#d3bdf8"),
        ("--fui-focus-ring", "rgba(124,58,237,0.30)"),
    ],
    [
        ("--fui-blue", "#db2777"),
        ("--fui-blue-strong", "#be185d"),
        ("--fui-blue-ink", "#be185d"),
        ("--fui-blue-surface-1", "#fdf2f8"),
        ("--fui-blue-surface-2", "#fbe0ee"),
        ("--fui-blue-outline", "#f6b6d6"),
        ("--fui-focus-ring", "rgba(219,39,119,0.30)"),
    ],
    [
        ("--fui-blue", "#d97706"),
        ("--fui-blue-strong", "#b45309"),
        ("--fui-blue-ink", "#b45309"),
        ("--fui-blue-surface-1", "#fdf6ec"),
        ("--fui-blue-surface-2", "#fcecd0"),
        ("--fui-blue-outline", "#f6d99a"),
        ("--fui-focus-ring", "rgba(217,119,6,0.30)"),
    ],
];

/// The stylesheet tokens that a brand may set.
pub const BRAND_TOKEN_NAMES: &'static [&'static str; 16] = &[
    "--fui-primary-bg",
    "--fui-blue",
    "--fui-blue-strong",
    "--fui-blue-ink",
    "--fui-blue-surface-1",
    "--fui-blue-surface-2",
    "--fui-blue-outline",
    "--fui-focus-ring",
    "--fui-radius-sm",
    "--fui-radius",
    "--fui-radius-md",
    "--fui-radius-lg",
    "--fui-font",
    "--fui-font-sans",
    "--fui-brand-logo-image",
    "--fui-brand-logo-display",
];

/// `text` is one of the words.
pub open spec fn in_vocabulary(words: Seq<&str>, text: Seq<char>) -> bool {
    exists|i: int| 0 <= i < words.len() && (#[trigger] words[i])@ == text
}

/// The choice that a row makes in a field: its text, where that is one of the
/// words.
pub open spec fn choice(row: JsonView, field: Seq<char>, words: Seq<&str>) -> Option<Seq<char>> {
    match text_member(row, field) {
        Some(text) => if in_vocabulary(words, text) {
            Some(text)
        } else {
            None
        },
        None => None,
    }
}

/// The family whose key is `accent`, from the `i`th on.
pub open spec fn family_from(accent: Seq<char>, i: int) -> Option<Seq<(&'static str, &'static str)>>
    decreases ACCENT_FAMILIES@.len() - i,
{
    if i < 0 || i >= ACCENT_FAMILIES@.len() {
        None
    } else if ACCENT_FAMILIES@[i]@[0].1@ == accent {
        Some(ACCENT_FAMILIES@[i]@)
    } else {
        family_from(accent, i + 1)
    }
}

/// The family of an accent option.
pub open spec fn family_of(accent: Seq<char>) -> Option<Seq<(&'static str, &'static str)>> {
    family_from(accent, 0)
}

/// A character that a logo's address may hold.
pub open spec fn is_logo_char(c: char) -> bool {
    ||| '0' <= c <= '9'
    ||| 'A' <= c <= 'Z'
    ||| 'a' <= c <= 'z'
    ||| c == '-' || c == '.' || c == '_' || c == '~' || c == ':' || c == '/' || c == '?' || c == '#'
    ||| c == '[' || c == ']' || c == '@' || c == '!' || c == '$' || c == '&' || c == '*' || c == '+'
    ||| c == ',' || c == '=' || c == '%'
}

/// An address that a logo may have: not empty, not too long, on this site or
/// under `https`, and of harmless characters alone.
pub open spec fn is_logo_url(s: Seq<char>) -> bool {
    &&& 0 < s.len() <= 2048
    &&& begins_with(s, "https://"@) || (begins_with(s, "/"@) && !begins_with(s, "//"@))
    &&& forall|i: int| 0 <= i < s.len() ==> is_logo_char(#[trigger] s[i])
}

/// The logo that a row names.
pub open spec fn logo_of(row: JsonView) -> Option<Seq<char>> {
    match text_member(row, "logo_url"@) {
        Some(text) => if is_logo_url(text) {
            Some(text)
        } else {
            None
        },
        None => None,
    }
}

/// One declaration of a stylesheet.
pub open spec fn declaration(token: Seq<char>, value: Seq<char>) -> Seq<char> {
    token + ":"@ + value + ";"@
}

/// The declarations of a token family.
pub open spec fn family_declarations(family: Seq<(&'static str, &'static str)>) -> Seq<Seq<char>> {
    family.map_values(|pair: (&'static str, &'static str)| declaration(pair.0@, pair.1@))
}

/// The declarations of a row's primary color.
pub open spec fn primary_declarations(row: JsonView) -> Seq<Seq<char>> {
    match choice(row, "primary_color"@, PRIMARY_COLORS@) {
        Some(value) => seq![declaration("--fui-primary-bg"@, value)],
        None => Seq::empty(),
    }
}

/// The declarations of a row's accent color.
pub open spec fn accent_declarations(row: JsonView) -> Seq<Seq<char>> {
    match choice(row, "accent_color"@, ACCENT_COLORS@) {
        Some(accent) => match family_of(accent) {
            Some(family) => family_declarations(family),
            None => Seq::empty(),
        },
        None => Seq::empty(),
    }
}

/// Four radii, from small to large.
pub open spec fn radii(sm: Seq<char>, base: Seq<char>, md: Seq<char>, lg: Seq<char>) -> Seq<
    Seq<char>,
> {
    seq![
        declaration("--fui-radius-sm"@, sm),
        declaration("--fui-radius"@, base),
        declaration("--fui-radius-md"@, md),
        declaration("--fui-radius-lg"@, lg),
    ]
}

/// The declarations of a row's corner radius scale.
pub open spec fn radius_declarations(row: JsonView) -> Seq<Seq<char>> {
    match choice(row, "corner_radius_scale"@, RADIUS_SCALES@) {
        Some(scale) => if scale == "compact"@ {
            radii("2px"@, "4px"@, "6px"@, "8px"@)
        } else if scale == "comfortable"@ {
            radii("4px"@, "6px"@, "8px"@, "12px"@)
        } else {
            radii("8px"@, "10px"@, "14px"@, "18px"@)
        },
        None => Seq::empty(),
    }
}

/// The font stack of a font family.
pub open spec fn font_stack(family: Seq<char>) -> Seq<char> {
    if family == "Inter"@ {
        "Inter,InterVar,system-ui,sans-serif"@
    } else if family == "System UI"@ {
        "system-ui,sans-serif"@
    } else if family == "Georgia"@ {
        "Georgia,serif"@
    } else {
        "Verdana,sans-serif"@
    }
}

/// The declarations of a row's font family.
pub open spec fn font_declarations(row: JsonView) -> Seq<Seq<char>> {
    match choice(row, "font_family_name"@, FONT_FAMILIES@) {
        Some(family) => seq![
            declaration("--fui-font"@, font_stack(family)),
            declaration("--fui-font-sans"@, "var(--fui-font)"@),
        ],
        None => Seq::empty(),
    }
}

/// The declarations of a row's logo.
pub open spec fn logo_declarations(row: JsonView) -> Seq<Seq<char>> {
    match logo_of(row) {
        Some(url) => seq![
            declaration("--fui-brand-logo-image"@, "url(\""@ + url + "\")"@),
            declaration("--fui-brand-logo-display"@, "inline-block"@),
        ],
        None => Seq::empty(),
    }
}

/// All the declarations of a row, in order.
pub open spec fn brand_declarations(row: JsonView) -> Seq<Seq<char>> {
    primary_declarations(row) + accent_declarations(row) + radius_declarations(row)
        + font_declarations(row) + logo_declarations(row)
}

/// The style that a row gives: none where it declares nothing.
pub open spec fn brand_css(row: JsonView) -> Option<Seq<char>> {
    if brand_declarations(row).len() == 0 {
        None
    } else {
        Some(":root.fui-root{"@ + joined(brand_declarations(row)) + "}"@)
    }
}

/// The accent option that a stored row selected keys into its family.
pub fn accent_family(accent: &str) -> (family: Option<
    &'static [(&'static str, &'static str); 7],
>)
    ensures
        match family {
            Some(found) => family_of(accent@) == Some(found@),
            None => family_of(accent@) is None,
        },
{
    let mut i: usize = 0;
    while i < 6
        invariant
            i <= 6,
            ACCENT_FAMILIES@.len() == 6,
            family_of(accent@) == family_from(accent@, i as int),
        decreases 6 - i,
    {
        if same_text(ACCENT_FAMILIES[i][0].1, accent) {
            return Some(&ACCENT_FAMILIES[i]);
        }
        i += 1;
    }
    None
}

/// The options of a Select field: none, then each value.
pub fn brand_select_options(values: &[&str]) -> (options: Vec<String>)
    ensures
        options@.len() == values@.len() + 1,
        options@[0]@ == ""@,
        forall|i: int|
            0 <= i < values@.len() ==> (#[trigger] options@[i + 1])@ == values@[i]@,
{
    let mut options: Vec<String> = Vec::new();
    options.push("".to_string());
    let mut i: usize = 0;
    while i < values.len()
        invariant
            i <= values@.len(),
            options@.len() == i + 1,
            options@[0]@ == ""@,
            forall|j: int| 0 <= j < i ==> (#[trigger] options@[j + 1])@ == values@[j]@,
        decreases values@.len() - i,
    {
        options.push(values[i].to_string());
        i += 1;
    }
    options
}

/// A Select field of a DocType: its options are the empty one and each word.
pub open spec fn select_field(name: Seq<char>, label: Seq<char>, words: Seq<&str>) -> JsonView {
    object_view(
        seq![
            ("fieldname"@, JsonView::Text(name)),
            ("label"@, JsonView::Text(label)),
            ("fieldtype"@, JsonView::Text("Select"@)),
            (
                "options"@,
                JsonView::Items(
                    seq![JsonView::Text(""@)] + words.map_values(|word: &str| JsonView::Text(word@)),
                ),
            ),
        ],
    )
}

/// The DocType of brand settings.
pub open spec fn brand_settings_view() -> JsonView {
    object_view(
        seq![
            ("name"@, JsonView::Text(BRAND_SETTINGS@)),
            ("label"@, JsonView::Text("Brand Settings"@)),
            ("issingle"@, JsonView::Bool(true)),
            (
                "fields"@,
                JsonView::Items(
                    seq![
                        select_field("primary_color"@, "Primary color"@, PRIMARY_COLORS@),
                        select_field("accent_color"@, "Accent color"@, ACCENT_COLORS@),
                        select_field(
                            "corner_radius_scale"@,
                            "Corner radius scale"@,
                            RADIUS_SCALES@,
                        ),
                        select_field("font_family_name"@, "Font family"@, FONT_FAMILIES@),
                        object_view(
                            seq![
                                ("fieldname"@, JsonView::Text("logo_url"@)),
                                ("label"@, JsonView::Text("Logo URL"@)),
                                ("fieldtype"@, JsonView::Text("Data"@)),
                            ],
                        ),
                    ],
                ),
            ),
        ],
    )
}

/// The keys of a field are distinct.
proof fn lemma_field_keys()
    ensures
        "fieldname"@ != "label"@,
        "fieldname"@ != "fieldtype"@,
        "fieldname"@ != "options"@,
        "label"@ != "fieldtype"@,
        "label"@ != "options"@,
        "fieldtype"@ != "options"@,
{
    reveal_strlit("fieldname");
    reveal_strlit("label");
    reveal_strlit("fieldtype");
    reveal_strlit("options");
    assert("fieldname"@[5] != "fieldtype"@[5]);
    assert("fieldname"@.len() == 9 && "fieldtype"@.len() == 9);
    assert("label"@.len() == 5 && "options"@.len() == 7);
}

fn make_select_field(name: &str, label: &str, words: &[&str]) -> (field: Value)
    ensures
        json_view(field) == select_field(name@, label@, words@),
{
    let options = brand_select_options(words);
    let mut items: Vec<Value> = Vec::new();
    let mut i: usize = 0;
    while i < options.len()
        invariant
            i <= options@.len(),
            items@.len() == i,
            forall|j: int|
                0 <= j < i ==> json_view(#[trigger] items@[j]) == JsonView::Text(options@[j]@),
        decreases options@.len() - i,
    {
        items.push(string(options[i].as_str()));
        i += 1;
    }
    let ghost views = views_of(items@);
    proof {
        let expected = seq![JsonView::Text(""@)] + words@.map_values(
            |word: &str| JsonView::Text(word@),
        );
        assert forall|j: int| 0 <= j < views.len() implies views[j] == expected[j] by {
            if j > 0 {
                assert(options@[(j - 1) + 1]@ == words@[j - 1]@);
            }
        }
        assert(views =~= expected);
    }
    let mut members: Vec<(String, Value)> = Vec::new();
    members.push(("fieldname".to_string(), string(name)));
    members.push(("label".to_string(), string(label)));
    members.push(("fieldtype".to_string(), string("Select")));
    members.push(("options".to_string(), array(items)));
    proof {
        assert(pair_views_of(members@) =~= seq![
            ("fieldname"@, JsonView::Text(name@)),
            ("label"@, JsonView::Text(label@)),
            ("fieldtype"@, JsonView::Text("Select"@)),
            ("options"@, JsonView::Items(views)),
        ]);
        lemma_field_keys();
    }
    object(members)
}

/// The DocType of brand settings, installed through the ordinary metadata door.
/// The four closed choices are Select fields; the logo is a Data value, which
/// enters a style only after its shape was accepted. Empty means "inherit the
/// stylesheet" for every field.
pub fn brand_settings_meta() -> (meta: Value)
    ensures
        json_view(meta) == brand_settings_view(),
{
    let mut logo: Vec<(String, Value)> = Vec::new();
    logo.push(("fieldname".to_string(), string("logo_url")));
    logo.push(("label".to_string(), string("Logo URL")));
    logo.push(("fieldtype".to_string(), string("Data")));
    let ghost logo_views = pair_views_of(logo@);
    proof {
        assert(logo_views =~= seq![
            ("fieldname"@, JsonView::Text("logo_url"@)),
            ("label"@, JsonView::Text("Logo URL"@)),
            ("fieldtype"@, JsonView::Text("Data"@)),
        ]);
        lemma_field_keys();
    }
    let mut fields: Vec<Value> = Vec::new();
    fields.push(make_select_field("primary_color", "Primary color", PRIMARY_COLORS));
    fields.push(make_select_field("accent_color", "Accent color", ACCENT_COLORS));
    fields.push(make_select_field("corner_radius_scale", "Corner radius scale", RADIUS_SCALES));
    fields.push(make_select_field("font_family_name", "Font family", FONT_FAMILIES));
    fields.push(object(logo));
    let ghost field_views = views_of(fields@);
    proof {
        assert(field_views =~= seq![
            select_field("primary_color"@, "Primary color"@, PRIMARY_COLORS@),
            select_field("accent_color"@, "Accent color"@, ACCENT_COLORS@),
            select_field("corner_radius_scale"@, "Corner radius scale"@, RADIUS_SCALES@),
            select_field("font_family_name"@, "Font family"@, FONT_FAMILIES@),
            object_view(logo_views),
        ]);
    }
    let mut members: Vec<(String, Value)> = Vec::new();
    members.push(("name".to_string(), string(BRAND_SETTINGS)));
    members.push(("label".to_string(), string("Brand Settings")));
    members.push(("issingle".to_string(), boolean(true)));
    members.push(("fields".to_string(), array(fields)));
    proof {
        assert(pair_views_of(members@) =~= seq![
            ("name"@, JsonView::Text(BRAND_SETTINGS@)),
            ("label"@, JsonView::Text("Brand Settings"@)),
            ("issingle"@, JsonView::Bool(true)),
            ("fields"@, JsonView::Items(field_views)),
        ]);
        reveal_strlit("name");
        reveal_strlit("label");
        reveal_strlit("issingle");
        reveal_strlit("fields");
        assert("name"@.len() == 4 && "label"@.len() == 5);
        assert("issingle"@.len() == 8 && "fields"@.len() == 6);
    }
    object(members)
}

/// The choice that a row makes in a field: its text, where that is one of the
/// words.
pub fn selected<'a>(row: &'a Value, field: &str, vocabulary: &[&str]) -> (value: Option<&'a str>)
    ensures
        match value {
            Some(text) => choice(json_view(*row), field@, vocabulary@) == Some(text@),
            None => choice(json_view(*row), field@, vocabulary@) is None,
        },
{
    let text = match get_text(row, field) {
        Some(text) => text,
        None => return None,
    };
    let mut i: usize = 0;
    while i < vocabulary.len()
        invariant
            i <= vocabulary@.len(),
            text_member(json_view(*row), field@) == Some(text@),
            forall|j: int| 0 <= j < i ==> (#[trigger] vocabulary@[j])@ != text@,
        decreases vocabulary@.len() - i,
    {
        if same_text(vocabulary[i], text) {
            return Some(text);
        }
        i += 1;
    }
    None
}

fn logo_char(c: char) -> (yes: bool)
    ensures
        yes == is_logo_char(c),
{
    ('0' <= c && c <= '9') || ('A' <= c && c <= 'Z') || ('a' <= c && c <= 'z') || c == '-' || c
        == '.' || c == '_' || c == '~' || c == ':' || c == '/' || c == '?' || c == '#' || c == '['
        || c == ']' || c == '@' || c == '!' || c == '$' || c == '&' || c == '*' || c == '+' || c
        == ',' || c == '=' || c == '%'
}

/// The logo that a row names, where its address has an accepted shape.
pub fn logo_url(row: &Value) -> (logo: Option<&str>)
    ensures
        match logo {
            Some(url) => logo_of(json_view(*row)) == Some(url@),
            None => logo_of(json_view(*row)) is None,
        },
{
    let text = match get_text(row, "logo_url") {
        Some(text) => text,
        None => return None,
    };
    let chars = chars_of(text);
    if chars.len() == 0 || chars.len() > 2048 {
        return None;
    }
    let secure = starts_with(text, "https://");
    let local = starts_with(text, "/") && !starts_with(text, "//");
    if !secure && !local {
        return None;
    }
    let mut i: usize = 0;
    while i < chars.len()
        invariant
            i <= chars@.len(),
            chars@ == text@,
            text_member(json_view(*row), "logo_url"@) == Some(text@),
            forall|j: int| 0 <= j < i ==> is_logo_char(#[trigger] chars@[j]),
        decreases chars@.len() - i,
    {
        if !logo_char(chars[i]) {
            proof {
                assert(!is_logo_char(text@[i as int]));
            }
            return None;
        }
        i += 1;
    }
    Some(text)
}

/// The texts of the declarations made so far.
spec fn texts(declarations: Vec<String>) -> Seq<Seq<char>> {
    declarations@.map_values(|part: String| part@)
}

fn declare(declarations: &mut Vec<String>, token: &str, value: &str)
    ensures
        texts(*final(declarations)) == texts(*old(declarations)).push(declaration(token@, value@)),
{
    let text = token.to_string().concat(":").concat(value).concat(";");
    declarations.push(text);
    proof {
        assert(texts(*declarations) =~= texts(*old(declarations)).push(
            declaration(token@, value@),
        ));
    }
}

fn declare_radii(declarations: &mut Vec<String>, sm: &str, base: &str, md: &str, lg: &str)
    ensures
        texts(*final(declarations)) == texts(*old(declarations)) + radii(sm@, base@, md@, lg@),
{
    declare(declarations, "--fui-radius-sm", sm);
    declare(declarations, "--fui-radius", base);
    declare(declarations, "--fui-radius-md", md);
    declare(declarations, "--fui-radius-lg", lg);
    proof {
        assert(texts(*declarations) =~= texts(*old(declarations)) + radii(sm@, base@, md@, lg@));
    }
}

fn declare_primary(declarations: &mut Vec<String>, row: &Value)
    ensures
        texts(*final(declarations)) == texts(*old(declarations)) + primary_declarations(
            json_view(*row),
        ),
{
    if let Some(value) = selected(row, "primary_color", PRIMARY_COLORS) {
        declare(declarations, "--fui-primary-bg", value);
    }
    proof {
        assert(texts(*declarations) =~= texts(*old(declarations)) + primary_declarations(
            json_view(*row),
        ));
    }
}

fn declare_accent(declarations: &mut Vec<String>, row: &Value)
    ensures
        texts(*final(declarations)) == texts(*old(declarations)) + accent_declarations(
            json_view(*row),
        ),
{
    let ghost start = texts(*declarations);
    if let Some(accent) = selected(row, "accent_color", ACCENT_COLORS) {
        if let Some(family) = accent_family(accent) {
            let ghost all = family_declarations(family@);
            let mut i: usize = 0;
            proof {
                assert(texts(*declarations) =~= start + all.take(0));
            }
            while i < 7
                invariant
                    i <= 7,
                    family@.len() == 7,
                    all == family_declarations(family@),
                    texts(*declarations) == start + all.take(i as int),
                decreases 7 - i,
            {
                declare(declarations, family[i].0, family[i].1);
                i += 1;
                proof {
                    assert(start + all.take(i as int) =~= (start + all.take(i - 1)).push(
                        all[i - 1],
                    ));
                }
            }
            proof {
                assert(all.take(7) =~= all);
            }
            return ;
        }
    }
    proof {
        assert(texts(*declarations) =~= start + accent_declarations(json_view(*row)));
    }
}

fn declare_radius(declarations: &mut Vec<String>, row: &Value)
    ensures
        texts(*final(declarations)) == texts(*old(declarations)) + radius_declarations(
            json_view(*row),
        ),
{
    match selected(row, "corner_radius_scale", RADIUS_SCALES) {
        Some(scale) => {
            if same_text(scale, "compact") {
                declare_radii(declarations, "2px", "4px", "6px", "8px");
            } else if same_text(scale, "comfortable") {
                declare_radii(declarations, "4px", "6px", "8px", "12px");
            } else {
                declare_radii(declarations, "8px", "10px", "14px", "18px");
            }
        },
        None => {
            proof {
                assert(texts(*declarations) =~= texts(*old(declarations)) + radius_declarations(
                    json_view(*row),
                ));
            }
        },
    }
}

fn declare_font(declarations: &mut Vec<String>, row: &Value)
    ensures
        texts(*final(declarations)) == texts(*old(declarations)) + font_declarations(
            json_view(*row),
        ),
{
    if let Some(family) = selected(row, "font_family_name", FONT_FAMILIES) {
        let stack = if same_text(family, "Inter") {
            "Inter,InterVar,system-ui,sans-serif"
        } else if same_text(family, "System UI") {
            "system-ui,sans-serif"
        } else if same_text(family, "Georgia") {
            "Georgia,serif"
        } else {
            "Verdana,sans-serif"
        };
        declare(declarations, "--fui-font", stack);
        declare(declarations, "--fui-font-sans", "var(--fui-font)");
    }
    proof {
        assert(texts(*declarations) =~= texts(*old(declarations)) + font_declarations(
            json_view(*row),
        ));
    }
}

fn declare_logo(declarations: &mut Vec<String>, row: &Value)
    ensures
        texts(*final(declarations)) == texts(*old(declarations)) + logo_declarations(
            json_view(*row),
        ),
{
    if let Some(url) = logo_url(row) {
        let value = "url(\"".to_string().concat(url).concat("\")");
        declare(declarations, "--fui-brand-logo-image", value.as_str());
        declare(declarations, "--fui-brand-logo-display", "inline-block");
    }
    proof {
        assert(texts(*declarations) =~= texts(*old(declarations)) + logo_declarations(
            json_view(*row),
        ));
    }
}

/// Maps stored brand data onto the fixed token vocabulary. Colors are emitted
/// as they are stored, named radius and font choices select fixed bundles, and
/// an accepted logo address can only stand inside `url("...")`.
pub fn brand_style_from_row(row: &Value) -> (style: Option<String>)
    ensures
        match style {
            Some(css) => brand_css(json_view(*row)) == Some(css@),
            None => brand_css(json_view(*row)) is None,
        },
{
    let mut declarations: Vec<String> = Vec::new();
    proof {
        assert(texts(declarations) =~= Seq::<Seq<char>>::empty());
    }
    declare_primary(&mut declarations, row);
    declare_accent(&mut declarations, row);
    declare_radius(&mut declarations, row);
    declare_font(&mut declarations, row);
    declare_logo(&mut declarations, row);
    proof {
        assert(texts(declarations) =~= brand_declarations(json_view(*row)));
    }
    if declarations.len() == 0 {
        None
    } else {
        Some(":root.fui-root{".to_string().concat(join(&declarations).as_str()).concat("}"))
    }
}

/// The style of a tenant, from the kernel's answer about its brand: none where
/// the read failed.
pub fn brand_style(code: u16, body: &Value) -> (style: Option<String>)
    ensures
        match style {
            Some(css) => code == 200 && brand_css(member_or_null(json_view(*body), "row"@)) == Some(
                css@,
            ),
            None => code != 200 || brand_css(member_or_null(json_view(*body), "row"@)) is None,
        },
{
    if code == 200 {
        brand_style_from_row(index(body, "row"))
    } else {
        None
    }
}

} // verus!
