//! Which style a brand row gives, said over the row's own members and the words of
//! the vocabularies.
use vstd::prelude::*;
use crate::brand::{
    accent_declarations, brand_css, brand_declarations, choice, declaration, family_declarations,
    family_of, font_declarations, in_vocabulary, is_logo_char, is_logo_url, logo_declarations,
    logo_of, primary_declarations, radius_declarations, ACCENT_COLORS, ACCENT_FAMILIES,
    BRAND_TOKEN_NAMES, FONT_FAMILIES, PRIMARY_COLORS, RADIUS_SCALES,
};
use crate::brand_laws::{
    law_declarations_are_emitted, law_every_accent_has_its_family, law_families_match_the_options,
};
use crate::json::JsonView;
use crate::text::{contains_text, joined};

verus! {

/// The row is an object that holds that text under that key.
pub open spec fn holds(row: JsonView, key: Seq<char>, text: Seq<char>) -> bool {
    row matches JsonView::Members(members) && members.contains_key(key) && members[key]
        == JsonView::Text(text)
}

/// The row holds one of the words under that key.
pub open spec fn holds_one_of(row: JsonView, key: Seq<char>, words: Seq<&str>) -> bool {
    exists|k: int| 0 <= k < words.len() && holds(row, key, (#[trigger] words[k])@)
}

/// The style of a row has that declaration: it is one of its own, and stands in its
/// text.
pub open spec fn emits(row: JsonView, text: Seq<char>) -> bool {
    &&& brand_css(row) matches Some(css) && contains_text(css, text)
    &&& exists|i: int|
        0 <= i < brand_declarations(row).len() && #[trigger] brand_declarations(row)[i] == text
}

/// A declaration, written out.
pub open spec fn sets(token: Seq<char>, value: Seq<char>) -> Seq<char> {
    token + seq![':'] + value + seq![';']
}

proof fn lemma_sets(token: Seq<char>, value: Seq<char>)
    ensures
        sets(token, value) == declaration(token, value),
{
    reveal_strlit(":");
    reveal_strlit(";");
    assert(":"@ =~= seq![':']);
    assert(";"@ =~= seq![';']);
}

proof fn lemma_emits(row: JsonView, i: int)
    requires
        0 <= i < brand_declarations(row).len(),
    ensures
        emits(row, brand_declarations(row)[i]),
{
    law_declarations_are_emitted(row, i);
}

proof fn lemma_choice(row: JsonView, key: Seq<char>, words: Seq<&str>)
    ensures
        choice(row, key, words) is Some <==> holds_one_of(row, key, words),
        forall|k: int|
            0 <= k < words.len() && holds(row, key, (#[trigger] words[k])@) ==> choice(
                row,
                key,
                words,
            ) == Some(words[k]@),
{
    if let Some(text) = choice(row, key, words) {
        let k = choose|k: int| 0 <= k < words.len() && (#[trigger] words[k])@ == text;
        assert(holds(row, key, words[k]@));
    }
    assert forall|k: int| 0 <= k < words.len() && holds(
        row,
        key,
        (#[trigger] words[k])@,
    ) implies choice(row, key, words) == Some(words[k]@) by {
        assert(in_vocabulary(words, words[k]@));
    }
}

/// A row with a primary color of the vocabulary sets it.
pub proof fn law_primary_color_is_set(row: JsonView, k: int)
    requires
        0 <= k < PRIMARY_COLORS@.len(),
        holds(row, "primary_color"@, PRIMARY_COLORS@[k]@),
    ensures
        emits(row, sets("--fui-primary-bg"@, PRIMARY_COLORS@[k]@)),
{
    lemma_choice(row, "primary_color"@, PRIMARY_COLORS@);
    lemma_sets("--fui-primary-bg"@, PRIMARY_COLORS@[k]@);
    assert(brand_declarations(row)[0] == primary_declarations(row)[0]);
    lemma_emits(row, 0);
}

/// A row with an accent of the vocabulary sets every member of that accent's own
/// family, to the value that the family gives it: no member keeps the color of
/// another.
pub proof fn law_accent_sets_its_whole_family(row: JsonView, k: int, j: int)
    requires
        0 <= k < ACCENT_COLORS@.len(),
        0 <= j < 7,
        holds(row, "accent_color"@, ACCENT_COLORS@[k]@),
    ensures
        emits(row, sets(ACCENT_FAMILIES@[k]@[j].0@, ACCENT_FAMILIES@[k]@[j].1@)),
{
    let accent = ACCENT_COLORS@[k]@;
    lemma_choice(row, "accent_color"@, ACCENT_COLORS@);
    lemma_family_of(k);
    lemma_sets(ACCENT_FAMILIES@[k]@[j].0@, ACCENT_FAMILIES@[k]@[j].1@);
    let at = primary_declarations(row).len() + j;
    assert(accent_declarations(row) == family_declarations(ACCENT_FAMILIES@[k]@));
    assert(brand_declarations(row)[at] == accent_declarations(row)[j]);
    lemma_emits(row, at);
}

/// The accent options are distinct, so each finds its own family.
proof fn lemma_family_of(k: int)
    requires
        0 <= k < ACCENT_COLORS@.len(),
    ensures
        family_of(ACCENT_COLORS@[k]@) == Some(ACCENT_FAMILIES@[k]@),
{
    reveal_strlit("#0d8ef8");
    reveal_strlit("#2563eb");
    reveal_strlit("#059669");
    reveal_strlit("#7c3aed");
    reveal_strlit("#db2777");
    reveal_strlit("#d97706");
    assert("#2563eb"@[1] != "#0d8ef8"@[1]);
    assert("#059669"@[2] != "#0d8ef8"@[2]);
    assert("#059669"@[1] != "#2563eb"@[1]);
    assert("#7c3aed"@[1] != "#0d8ef8"@[1]);
    assert("#7c3aed"@[1] != "#2563eb"@[1]);
    assert("#7c3aed"@[1] != "#059669"@[1]);
    assert("#db2777"@[1] != "#0d8ef8"@[1]);
    assert("#db2777"@[1] != "#2563eb"@[1]);
    assert("#db2777"@[1] != "#059669"@[1]);
    assert("#db2777"@[1] != "#7c3aed"@[1]);
    assert("#d97706"@[1] != "#0d8ef8"@[1]);
    assert("#d97706"@[1] != "#2563eb"@[1]);
    assert("#d97706"@[1] != "#059669"@[1]);
    assert("#d97706"@[1] != "#7c3aed"@[1]);
    assert("#d97706"@[2] != "#db2777"@[2]);
    law_families_match_the_options(k);
    reveal_with_fuel(crate::brand::family_from, 7);
    assert(k == 0 || k == 1 || k == 2 || k == 3 || k == 4 || k == 5);
}

/// The `j`th member of the `k`th accent family is that token with that value.
pub open spec fn gives(k: int, j: int, token: Seq<char>, value: Seq<char>) -> bool {
    ACCENT_FAMILIES@[k]@[j].0@ == token && ACCENT_FAMILIES@[k]@[j].1@ == value
}

/// The values of the accent families.
pub proof fn law_accent_families_are_these()
    ensures
        gives(0, 0, "--fui-blue"@, "#0d8ef8"@),
        gives(0, 1, "--fui-blue-strong"@, "#077ddf"@),
        gives(0, 2, "--fui-blue-ink"@, "#0e6fbf"@),
        gives(0, 3, "--fui-blue-surface-1"@, "#f1f8fe"@),
        gives(0, 4, "--fui-blue-surface-2"@, "#e6f4ff"@),
        gives(0, 5, "--fui-blue-outline"@, "#b5ddfd"@),
        gives(0, 6, "--fui-focus-ring"@, "rgba(13,142,248,0.30)"@),
        gives(1, 0, "--fui-blue"@, "#2563eb"@),
        gives(1, 1, "--fui-blue-strong"@, "#1d4ed8"@),
        gives(1, 2, "--fui-blue-ink"@, "#1d4ed8"@),
        gives(1, 3, "--fui-blue-surface-1"@, "#eff4ff"@),
        gives(1, 4, "--fui-blue-surface-2"@, "#dbe6fe"@),
        gives(1, 5, "--fui-blue-outline"@, "#bfd0fb"@),
        gives(1, 6, "--fui-focus-ring"@, "rgba(37,99,235,0.30)"@),
        gives(2, 0, "--fui-blue"@, "#059669"@),
        gives(2, 1, "--fui-blue-strong"@, "#047857"@),
        gives(2, 2, "--fui-blue-ink"@, "#047857"@),
        gives(2, 3, "--fui-blue-surface-1"@, "#eefbf4"@),
        gives(2, 4, "--fui-blue-surface-2"@, "#d5f5e3"@),
        gives(2, 5, "--fui-blue-outline"@, "#a7e8c6"@),
        gives(2, 6, "--fui-focus-ring"@, "rgba(5,150,105,0.30)"@),
        gives(3, 0, "--fui-blue"@, "#7c3aed"@),
        gives(3, 1, "--fui-blue-strong"@, "#6d28d9"@),
        gives(3, 2, "--fui-blue-ink"@, "#6d28d9"@),
        gives(3, 3, "--fui-blue-surface-1"@, "#f6f2fe"@),
        gives(3, 4, "--fui-blue-surface-2"@, "#ede4fd"@),
        gives(3, 5, "--fui-blue-outline"@, "#d3bdf8"@),
        gives(3, 6, "--fui-focus-ring"@, "rgba(124,58,237,0.30)"@),
        gives(4, 0, "--fui-blue"@, "#db2777"@),
        gives(4, 1, "--fui-blue-strong"@, "#be185d"@),
        gives(4, 2, "--fui-blue-ink"@, "#be185d"@),
        gives(4, 3, "--fui-blue-surface-1"@, "#fdf2f8"@),
        gives(4, 4, "--fui-blue-surface-2"@, "#fbe0ee"@),
        gives(4, 5, "--fui-blue-outline"@, "#f6b6d6"@),
        gives(4, 6, "--fui-focus-ring"@, "rgba(219,39,119,0.30)"@),
        gives(5, 0, "--fui-blue"@, "#d97706"@),
        gives(5, 1, "--fui-blue-strong"@, "#b45309"@),
        gives(5, 2, "--fui-blue-ink"@, "#b45309"@),
        gives(5, 3, "--fui-blue-surface-1"@, "#fdf6ec"@),
        gives(5, 4, "--fui-blue-surface-2"@, "#fcecd0"@),
        gives(5, 5, "--fui-blue-outline"@, "#f6d99a"@),
        gives(5, 6, "--fui-focus-ring"@, "rgba(217,119,6,0.30)"@),
{
}

/// The tokens that a brand may set, in the order in which they are set.
pub proof fn law_brand_tokens_are_these()
    ensures
        BRAND_TOKEN_NAMES@[0]@ == "--fui-primary-bg"@,
        BRAND_TOKEN_NAMES@[1]@ == "--fui-blue"@,
        BRAND_TOKEN_NAMES@[2]@ == "--fui-blue-strong"@,
        BRAND_TOKEN_NAMES@[3]@ == "--fui-blue-ink"@,
        BRAND_TOKEN_NAMES@[4]@ == "--fui-blue-surface-1"@,
        BRAND_TOKEN_NAMES@[5]@ == "--fui-blue-surface-2"@,
        BRAND_TOKEN_NAMES@[6]@ == "--fui-blue-outline"@,
        BRAND_TOKEN_NAMES@[7]@ == "--fui-focus-ring"@,
        BRAND_TOKEN_NAMES@[8]@ == "--fui-radius-sm"@,
        BRAND_TOKEN_NAMES@[9]@ == "--fui-radius"@,
        BRAND_TOKEN_NAMES@[10]@ == "--fui-radius-md"@,
        BRAND_TOKEN_NAMES@[11]@ == "--fui-radius-lg"@,
        BRAND_TOKEN_NAMES@[12]@ == "--fui-font"@,
        BRAND_TOKEN_NAMES@[13]@ == "--fui-font-sans"@,
        BRAND_TOKEN_NAMES@[14]@ == "--fui-brand-logo-image"@,
        BRAND_TOKEN_NAMES@[15]@ == "--fui-brand-logo-display"@,
{
}

/// A row with a corner radius scale sets the four radii of that scale.
pub proof fn law_radius_scale_sets_four_radii(row: JsonView)
    ensures
        holds(row, "corner_radius_scale"@, "compact"@) ==> {
            &&& emits(row, sets("--fui-radius-sm"@, "2px"@))
            &&& emits(row, sets("--fui-radius"@, "4px"@))
            &&& emits(row, sets("--fui-radius-md"@, "6px"@))
            &&& emits(row, sets("--fui-radius-lg"@, "8px"@))
        },
        holds(row, "corner_radius_scale"@, "comfortable"@) ==> {
            &&& emits(row, sets("--fui-radius-sm"@, "4px"@))
            &&& emits(row, sets("--fui-radius"@, "6px"@))
            &&& emits(row, sets("--fui-radius-md"@, "8px"@))
            &&& emits(row, sets("--fui-radius-lg"@, "12px"@))
        },
        holds(row, "corner_radius_scale"@, "rounded"@) ==> {
            &&& emits(row, sets("--fui-radius-sm"@, "8px"@))
            &&& emits(row, sets("--fui-radius"@, "10px"@))
            &&& emits(row, sets("--fui-radius-md"@, "14px"@))
            &&& emits(row, sets("--fui-radius-lg"@, "18px"@))
        },
{
    let at = primary_declarations(row).len() + accent_declarations(row).len();
    lemma_choice(row, "corner_radius_scale"@, RADIUS_SCALES@);
    reveal_strlit("compact");
    reveal_strlit("comfortable");
    reveal_strlit("rounded");
    assert("compact"@.len() == 7 && "comfortable"@.len() == 11);
    assert("rounded"@[0] == 'r' && "compact"@[0] == 'c' && "comfortable"@[0] == 'c');
    assert(RADIUS_SCALES@[0]@ == "compact"@);
    assert(RADIUS_SCALES@[1]@ == "comfortable"@);
    assert(RADIUS_SCALES@[2]@ == "rounded"@);
    lemma_sets("--fui-radius-sm"@, "2px"@);
    lemma_sets("--fui-radius"@, "4px"@);
    lemma_sets("--fui-radius-md"@, "6px"@);
    lemma_sets("--fui-radius-lg"@, "8px"@);
    lemma_sets("--fui-radius-sm"@, "4px"@);
    lemma_sets("--fui-radius"@, "6px"@);
    lemma_sets("--fui-radius-md"@, "8px"@);
    lemma_sets("--fui-radius-lg"@, "12px"@);
    lemma_sets("--fui-radius-sm"@, "8px"@);
    lemma_sets("--fui-radius"@, "10px"@);
    lemma_sets("--fui-radius-md"@, "14px"@);
    lemma_sets("--fui-radius-lg"@, "18px"@);
    if choice(row, "corner_radius_scale"@, RADIUS_SCALES@) is Some {
        assert forall|j: int| 0 <= j < 4 implies emits(
            row,
            #[trigger] radius_declarations(row)[j],
        ) by {
            assert(brand_declarations(row)[at + j] == radius_declarations(row)[j]);
            lemma_emits(row, at + j);
        }
        assert(emits(row, radius_declarations(row)[0]));
        assert(emits(row, radius_declarations(row)[1]));
        assert(emits(row, radius_declarations(row)[2]));
        assert(emits(row, radius_declarations(row)[3]));
    }
}

/// A row with a font family sets that family's stack, and the sans font to it.
pub proof fn law_font_family_sets_its_stack(row: JsonView)
    ensures
        holds(row, "font_family_name"@, "Inter"@) ==> emits(
            row,
            sets("--fui-font"@, "Inter,InterVar,system-ui,sans-serif"@),
        ),
        holds(row, "font_family_name"@, "System UI"@) ==> emits(
            row,
            sets("--fui-font"@, "system-ui,sans-serif"@),
        ),
        holds(row, "font_family_name"@, "Georgia"@) ==> emits(
            row,
            sets("--fui-font"@, "Georgia,serif"@),
        ),
        holds(row, "font_family_name"@, "Verdana"@) ==> emits(
            row,
            sets("--fui-font"@, "Verdana,sans-serif"@),
        ),
        holds_one_of(row, "font_family_name"@, FONT_FAMILIES@) ==> emits(
            row,
            sets("--fui-font-sans"@, "var(--fui-font)"@),
        ),
{
    let at = (primary_declarations(row).len() + accent_declarations(row).len()
        + radius_declarations(row).len()) as int;
    lemma_choice(row, "font_family_name"@, FONT_FAMILIES@);
    reveal_strlit("Inter");
    reveal_strlit("System UI");
    reveal_strlit("Georgia");
    reveal_strlit("Verdana");
    assert("Inter"@[0] == 'I' && "System UI"@[0] == 'S');
    assert("Georgia"@[0] == 'G' && "Verdana"@[0] == 'V');
    assert(FONT_FAMILIES@[0]@ == "Inter"@);
    assert(FONT_FAMILIES@[1]@ == "System UI"@);
    assert(FONT_FAMILIES@[2]@ == "Georgia"@);
    assert(FONT_FAMILIES@[3]@ == "Verdana"@);
    lemma_sets("--fui-font"@, "Inter,InterVar,system-ui,sans-serif"@);
    lemma_sets("--fui-font"@, "system-ui,sans-serif"@);
    lemma_sets("--fui-font"@, "Georgia,serif"@);
    lemma_sets("--fui-font"@, "Verdana,sans-serif"@);
    lemma_sets("--fui-font-sans"@, "var(--fui-font)"@);
    if choice(row, "font_family_name"@, FONT_FAMILIES@) is Some {
        assert(brand_declarations(row)[at] == font_declarations(row)[0]);
        assert(brand_declarations(row)[at + 1] == font_declarations(row)[1]);
        lemma_emits(row, at);
        lemma_emits(row, at + 1);
    }
}

/// A character that a logo's address may hold: a letter or a digit of ASCII, or one
/// of the marks.
pub open spec fn is_address_char(c: char) -> bool {
    ||| 'a' <= c <= 'z'
    ||| 'A' <= c <= 'Z'
    ||| '0' <= c <= '9'
    ||| "-._~:/?#[]@!$&*+,=%"@.contains(c)
}

/// An address that a logo may have: of 1 to 2048 such characters, under `https` or on
/// this site.
pub open spec fn is_address(url: Seq<char>) -> bool {
    &&& 1 <= url.len() <= 2048
    &&& forall|i: int| 0 <= i < url.len() ==> is_address_char(#[trigger] url[i])
    &&& (url.len() >= 8 && url.take(8) == "https://"@) || (url[0] == '/' && (url.len() == 1
        || url[1] != '/'))
}

proof fn lemma_address_char(c: char)
    ensures
        is_address_char(c) == is_logo_char(c),
{
    let marks = "-._~:/?#[]@!$&*+,=%"@;
    reveal_strlit("-._~:/?#[]@!$&*+,=%");
    assert(marks.len() == 19);
    assert(marks[0] == '-');
    assert(marks[1] == '.');
    assert(marks[2] == '_');
    assert(marks[3] == '~');
    assert(marks[4] == ':');
    assert(marks[5] == '/');
    assert(marks[6] == '?');
    assert(marks[7] == '#');
    assert(marks[8] == '[');
    assert(marks[9] == ']');
    assert(marks[10] == '@');
    assert(marks[11] == '!');
    assert(marks[12] == '$');
    assert(marks[13] == '&');
    assert(marks[14] == '*');
    assert(marks[15] == '+');
    assert(marks[16] == ',');
    assert(marks[17] == '=');
    assert(marks[18] == '%');
    if marks.contains(c) {
        let i = choose|i: int| 0 <= i < marks.len() && marks[i] == c;
        assert(i == 0 || i == 1 || i == 2 || i == 3 || i == 4 || i == 5 || i == 6 || i == 7
            || i == 8 || i == 9 || i == 10 || i == 11 || i == 12 || i == 13 || i == 14 || i == 15
            || i == 16 || i == 17 || i == 18);
    }
}

/// A logo's address is accepted if and only if it is such an address.
pub proof fn law_every_address_is_accepted(url: Seq<char>)
    ensures
        is_logo_url(url) <==> is_address(url),
{
    assert forall|i: int| 0 <= i < url.len() implies is_address_char(#[trigger] url[i])
        == is_logo_char(url[i]) by {
        lemma_address_char(url[i]);
    }
    if is_logo_url(url) {
        assert forall|i: int| 0 <= i < url.len() implies is_address_char(#[trigger] url[i]) by {
            assert(is_logo_char(url[i]));
        }
    }
    if is_address(url) {
        assert forall|i: int| 0 <= i < url.len() implies is_logo_char(#[trigger] url[i]) by {
            assert(is_address_char(url[i]));
        }
    }
    reveal_strlit("https://");
    reveal_strlit("/");
    reveal_strlit("//");
    if url.len() >= 8 {
        assert(url.take(8) =~= url.subrange(0, 8));
    }
    if url.len() >= 1 {
        assert(url.subrange(0, 1)[0] == url[0]);
        if url[0] == '/' {
            assert(url.subrange(0, 1) =~= "/"@);
        }
    }
    if url.len() >= 2 {
        assert(url.subrange(0, 2)[0] == url[0] && url.subrange(0, 2)[1] == url[1]);
        if url[0] == '/' && url[1] == '/' {
            assert(url.subrange(0, 2) =~= "//"@);
        }
    }
}

/// A row with an accepted logo sets it, inside `url("...")`, and shows it.
pub proof fn law_logo_is_set(row: JsonView, url: Seq<char>)
    requires
        holds(row, "logo_url"@, url),
        is_address(url),
    ensures
        emits(row, sets("--fui-brand-logo-image"@, "url(\""@ + url + "\")"@)),
        emits(row, sets("--fui-brand-logo-display"@, "inline-block"@)),
{
    law_every_address_is_accepted(url);
    lemma_sets("--fui-brand-logo-image"@, "url(\""@ + url + "\")"@);
    lemma_sets("--fui-brand-logo-display"@, "inline-block"@);
    let at = brand_declarations(row).len() - 2;
    assert(logo_of(row) == Some(url));
    assert(brand_declarations(row)[at] == logo_declarations(row)[0]);
    assert(brand_declarations(row)[at + 1] == logo_declarations(row)[1]);
    lemma_emits(row, at);
    lemma_emits(row, at + 1);
}

/// The row names an accepted logo.
pub open spec fn names_logo(row: JsonView) -> bool {
    exists|url: Seq<char>| #[trigger] holds(row, "logo_url"@, url) && is_address(url)
}

/// One where something is so, none where it is not.
pub open spec fn one_if(yes: bool) -> int {
    if yes {
        1
    } else {
        0
    }
}

/// Nothing else is set: a row has one declaration for its primary color, seven for its
/// accent, four for its radius scale, two for its font and two for its logo, each where
/// it makes that choice, and no more; the style is those, in one rule; and there is
/// none where there is no choice.
pub proof fn law_nothing_else_is_set(row: JsonView)
    ensures
        brand_declarations(row).len() == one_if(
            holds_one_of(row, "primary_color"@, PRIMARY_COLORS@),
        ) + 7 * one_if(holds_one_of(row, "accent_color"@, ACCENT_COLORS@)) + 4 * one_if(
            holds_one_of(row, "corner_radius_scale"@, RADIUS_SCALES@),
        ) + 2 * one_if(holds_one_of(row, "font_family_name"@, FONT_FAMILIES@)) + 2 * one_if(
            names_logo(row),
        ),
        brand_declarations(row).len() == 0 ==> brand_css(row) is None,
        brand_declarations(row).len() > 0 ==> brand_css(row) == Some(
            ":root.fui-root{"@ + joined(brand_declarations(row)) + "}"@,
        ),
{
    lemma_choice(row, "primary_color"@, PRIMARY_COLORS@);
    lemma_choice(row, "accent_color"@, ACCENT_COLORS@);
    lemma_choice(row, "corner_radius_scale"@, RADIUS_SCALES@);
    lemma_choice(row, "font_family_name"@, FONT_FAMILIES@);
    if let Some(accent) = choice(row, "accent_color"@, ACCENT_COLORS@) {
        law_every_accent_has_its_family(accent);
        assert(accent_declarations(row).len() == 7);
    }
    if let Some(url) = logo_of(row) {
        law_every_address_is_accepted(url);
        assert(holds(row, "logo_url"@, url));
    }
    if names_logo(row) {
        let url = choose|url: Seq<char>| #[trigger] holds(row, "logo_url"@, url) && is_address(url);
        law_every_address_is_accepted(url);
        assert(logo_of(row) == Some(url));
    }
}

/// Joining puts one text behind another, and adds nothing.
pub proof fn law_joining(parts: Seq<Seq<char>>, part: Seq<char>)
    ensures
        joined(Seq::empty()) == Seq::<char>::empty(),
        joined(parts.push(part)) == joined(parts) + part,
{
    assert(parts.push(part).drop_last() =~= parts);
}

} // verus!
