//! What holds of every tenant's brand.
use vstd::prelude::*;
use crate::brand::{
    accent_declarations, brand_css, brand_declarations, choice, declaration, family_from, family_of,
    font_declarations, font_stack, in_vocabulary, is_logo_char, is_logo_url, logo_declarations,
    logo_of, primary_declarations, radii, radius_declarations, ACCENT_COLORS, ACCENT_FAMILIES,
    BRAND_TOKEN_NAMES, FONT_FAMILIES, PRIMARY_COLORS, RADIUS_SCALES,
};
use crate::json::JsonView;
use crate::text::{
    before, begins_with, contains_text, joined, lemma_prefix_len_is, occurs_at,
};

verus! {

/// A character that cannot end a style element, nor start an escape or a quote
/// of its own: printable ASCII but for angle brackets, the backslash and the
/// single quote.
pub open spec fn is_style_char(c: char) -> bool {
    &&& ' ' <= c <= '~'
    &&& c != '<'
    &&& c != '>'
    &&& c != '\\'
    &&& c != '\''
}

/// A text of such characters.
pub open spec fn is_style_text(s: Seq<char>) -> bool {
    forall|i: int| 0 <= i < s.len() ==> is_style_char(#[trigger] s[i])
}

/// A character that stays inside the value that it stands in: a harmless one that
/// ends no declaration and opens or closes no block.
pub open spec fn is_value_char(c: char) -> bool {
    &&& is_style_char(c)
    &&& c != ';'
    &&& c != '{'
    &&& c != '}'
}

/// A text of such characters.
pub open spec fn is_value_text(s: Seq<char>) -> bool {
    forall|i: int| 0 <= i < s.len() ==> is_value_char(#[trigger] s[i])
}

/// A text of such characters without a quote or a colon.
spec fn is_bare_text(s: Seq<char>) -> bool {
    forall|i: int|
        0 <= i < s.len() ==> is_value_char(#[trigger] s[i]) && s[i] != '"' && s[i] != ':'
}

/// How often a character stands in a text.
pub open spec fn occurrences(s: Seq<char>, c: char) -> nat
    decreases s.len(),
{
    if s.len() == 0 {
        0
    } else {
        occurrences(s.drop_last(), c) + if s.last() == c {
            1nat
        } else {
            0
        }
    }
}

/// The token that a declaration sets: what stands before its colon.
pub open spec fn token_of(part: Seq<char>) -> Seq<char> {
    before(part, ':')
}

/// The accent options and the families are the same closed set, in the same
/// order, and each family is keyed by its own option.
pub proof fn law_families_match_the_options(i: int)
    requires
        0 <= i < ACCENT_FAMILIES@.len(),
    ensures
        ACCENT_FAMILIES@.len() == ACCENT_COLORS@.len(),
        ACCENT_FAMILIES@[i]@[0].0@ == "--fui-blue"@,
        ACCENT_FAMILIES@[i]@[0].1@ == ACCENT_COLORS@[i]@,
{
    assert(i == 0 || i == 1 || i == 2 || i == 3 || i == 4 || i == 5);
}

/// Every family sets the same tokens: no accent leaves one behind.
pub proof fn law_families_set_the_same_tokens(i: int, j: int)
    requires
        0 <= i < ACCENT_FAMILIES@.len(),
        0 <= j < 7,
    ensures
        ACCENT_FAMILIES@[i]@[j].0@ == ACCENT_FAMILIES@[0]@[j].0@,
{
    assert(i == 0 || i == 1 || i == 2 || i == 3 || i == 4 || i == 5);
    assert(j == 0 || j == 1 || j == 2 || j == 3 || j == 4 || j == 5 || j == 6);
}

/// The family that an accent finds is one of the table.
proof fn lemma_family_from(accent: Seq<char>, i: int)
    requires
        0 <= i,
        family_from(accent, i) is Some,
    ensures
        exists|k: int|
            i <= k < ACCENT_FAMILIES@.len() && family_from(accent, i) == Some(
                (#[trigger] ACCENT_FAMILIES@[k])@,
            ) && ACCENT_FAMILIES@[k]@[0].1@ == accent,
    decreases ACCENT_FAMILIES@.len() - i,
{
    if ACCENT_FAMILIES@[i]@[0].1@ != accent {
        lemma_family_from(accent, i + 1);
    }
}

/// A key of the table finds a family.
proof fn lemma_family_from_finds(accent: Seq<char>, i: int, k: int)
    requires
        0 <= i <= k < ACCENT_FAMILIES@.len(),
        ACCENT_FAMILIES@[k]@[0].1@ == accent,
    ensures
        family_from(accent, i) is Some,
    decreases k - i,
{
    if i < k && ACCENT_FAMILIES@[i]@[0].1@ != accent {
        lemma_family_from_finds(accent, i + 1, k);
    }
}

/// Every accent option has its family, and the family starts with the option
/// itself.
pub proof fn law_every_accent_has_its_family(accent: Seq<char>)
    requires
        in_vocabulary(ACCENT_COLORS@, accent),
    ensures
        family_of(accent) is Some,
        family_of(accent)->0.len() == 7,
        family_of(accent)->0[0].0@ == "--fui-blue"@,
        family_of(accent)->0[0].1@ == accent,
{
    let i = choose|i: int|
        0 <= i < ACCENT_COLORS@.len() && (#[trigger] ACCENT_COLORS@[i])@ == accent;
    law_families_match_the_options(i);
    lemma_family_from_finds(accent, 0, i);
    lemma_family_from(accent, 0);
    let k = choose|k: int|
        0 <= k < ACCENT_FAMILIES@.len() && family_from(accent, 0) == Some(
            (#[trigger] ACCENT_FAMILIES@[k])@,
        ) && ACCENT_FAMILIES@[k]@[0].1@ == accent;
    law_families_match_the_options(k);
}

/// An accepted logo address cannot leave the `url("...")` that it stands in, nor
/// name another scheme: it holds no quote, bracket, backslash, semicolon, brace
/// or space, and it is under `https` or on this site.
pub proof fn law_logo_stays_in_its_slot(url: Seq<char>)
    requires
        is_logo_url(url),
    ensures
        forall|i: int|
            0 <= i < url.len() ==> {
                let c = #[trigger] url[i];
                &&& c != '"' && c != '\'' && c != '(' && c != ')' && c != '\\'
                &&& c != ';' && c != '{' && c != '}' && c != '<' && c != '>' && c != ' '
            },
        is_style_text(url),
        begins_with(url, "https://"@) || (url[0] == '/' && (url.len() > 1 ==> url[1] != '/')),
{
    assert forall|i: int| 0 <= i < url.len() implies {
        let c = #[trigger] url[i];
        &&& c != '"' && c != '\'' && c != '(' && c != ')' && c != '\\'
        &&& c != ';' && c != '{' && c != '}' && c != '<' && c != '>' && c != ' '
        &&& is_style_char(c)
    } by {
        assert(is_logo_char(url[i]));
    }
    if !begins_with(url, "https://"@) {
        reveal_strlit("/");
        reveal_strlit("//");
        assert(url.subrange(0, 1)[0] == "/"@[0]);
        if url.len() > 1 && url[1] == '/' {
            assert(url.subrange(0, 2) =~= "//"@);
        }
    }
}

proof fn lemma_style_concat(a: Seq<char>, b: Seq<char>)
    requires
        is_style_text(a),
        is_style_text(b),
    ensures
        is_style_text(a + b),
{
    assert forall|i: int| 0 <= i < (a + b).len() implies is_style_char(#[trigger] (a + b)[i]) by {
        if i < a.len() {
            assert(is_style_char(a[i]));
        } else {
            assert(is_style_char(b[i - a.len()]));
        }
    }
}

/// Every text of a list is of harmless characters.
spec fn are_style_texts(parts: Seq<Seq<char>>) -> bool {
    forall|i: int| 0 <= i < parts.len() ==> is_style_text(#[trigger] parts[i])
}

proof fn lemma_style_joined(parts: Seq<Seq<char>>)
    requires
        are_style_texts(parts),
    ensures
        is_style_text(joined(parts)),
    decreases parts.len(),
{
    if parts.len() > 0 {
        lemma_style_joined(parts.drop_last());
        assert(is_style_text(parts.last()));
        lemma_style_concat(joined(parts.drop_last()), parts.last());
    }
}

proof fn lemma_bare_tokens(i: int)
    requires
        0 <= i < BRAND_TOKEN_NAMES@.len(),
    ensures
        is_bare_text(BRAND_TOKEN_NAMES@[i]@),
{
    reveal_strlit("--fui-primary-bg");
    reveal_strlit("--fui-blue");
    reveal_strlit("--fui-blue-strong");
    reveal_strlit("--fui-blue-ink");
    reveal_strlit("--fui-blue-surface-1");
    reveal_strlit("--fui-blue-surface-2");
    reveal_strlit("--fui-blue-outline");
    reveal_strlit("--fui-focus-ring");
    reveal_strlit("--fui-radius-sm");
    reveal_strlit("--fui-radius");
    reveal_strlit("--fui-radius-md");
    reveal_strlit("--fui-radius-lg");
    reveal_strlit("--fui-font");
    reveal_strlit("--fui-font-sans");
    reveal_strlit("--fui-brand-logo-image");
    reveal_strlit("--fui-brand-logo-display");
    assert(i == 0 || i == 1 || i == 2 || i == 3 || i == 4 || i == 5 || i == 6 || i == 7
        || i == 8 || i == 9 || i == 10 || i == 11 || i == 12 || i == 13 || i == 14 || i == 15);
}

proof fn lemma_bare_family_0(j: int)
    requires
        0 <= j < 7,
    ensures
        is_bare_text(ACCENT_FAMILIES@[0]@[j].1@),
{
    reveal_strlit("#0d8ef8");
    reveal_strlit("#077ddf");
    reveal_strlit("#0e6fbf");
    reveal_strlit("#f1f8fe");
    reveal_strlit("#e6f4ff");
    reveal_strlit("#b5ddfd");
    reveal_strlit("rgba(13,142,248,0.30)");
    assert(j == 0 || j == 1 || j == 2 || j == 3 || j == 4 || j == 5 || j == 6);
}

proof fn lemma_bare_family_1(j: int)
    requires
        0 <= j < 7,
    ensures
        is_bare_text(ACCENT_FAMILIES@[1]@[j].1@),
{
    reveal_strlit("#2563eb");
    reveal_strlit("#1d4ed8");
    reveal_strlit("#eff4ff");
    reveal_strlit("#dbe6fe");
    reveal_strlit("#bfd0fb");
    reveal_strlit("rgba(37,99,235,0.30)");
    assert(j == 0 || j == 1 || j == 2 || j == 3 || j == 4 || j == 5 || j == 6);
}

proof fn lemma_bare_family_2(j: int)
    requires
        0 <= j < 7,
    ensures
        is_bare_text(ACCENT_FAMILIES@[2]@[j].1@),
{
    reveal_strlit("#059669");
    reveal_strlit("#047857");
    reveal_strlit("#eefbf4");
    reveal_strlit("#d5f5e3");
    reveal_strlit("#a7e8c6");
    reveal_strlit("rgba(5,150,105,0.30)");
    assert(j == 0 || j == 1 || j == 2 || j == 3 || j == 4 || j == 5 || j == 6);
}

proof fn lemma_bare_family_3(j: int)
    requires
        0 <= j < 7,
    ensures
        is_bare_text(ACCENT_FAMILIES@[3]@[j].1@),
{
    reveal_strlit("#7c3aed");
    reveal_strlit("#6d28d9");
    reveal_strlit("#f6f2fe");
    reveal_strlit("#ede4fd");
    reveal_strlit("#d3bdf8");
    reveal_strlit("rgba(124,58,237,0.30)");
    assert(j == 0 || j == 1 || j == 2 || j == 3 || j == 4 || j == 5 || j == 6);
}

proof fn lemma_bare_family_4(j: int)
    requires
        0 <= j < 7,
    ensures
        is_bare_text(ACCENT_FAMILIES@[4]@[j].1@),
{
    reveal_strlit("#db2777");
    reveal_strlit("#be185d");
    reveal_strlit("#fdf2f8");
    reveal_strlit("#fbe0ee");
    reveal_strlit("#f6b6d6");
    reveal_strlit("rgba(219,39,119,0.30)");
    assert(j == 0 || j == 1 || j == 2 || j == 3 || j == 4 || j == 5 || j == 6);
}

proof fn lemma_bare_family_5(j: int)
    requires
        0 <= j < 7,
    ensures
        is_bare_text(ACCENT_FAMILIES@[5]@[j].1@),
{
    reveal_strlit("#d97706");
    reveal_strlit("#b45309");
    reveal_strlit("#fdf6ec");
    reveal_strlit("#fcecd0");
    reveal_strlit("#f6d99a");
    reveal_strlit("rgba(217,119,6,0.30)");
    assert(j == 0 || j == 1 || j == 2 || j == 3 || j == 4 || j == 5 || j == 6);
}

/// The token of the `j`th member of a family is the `j + 1`st that a brand may
/// set.
proof fn lemma_family_tokens(k: int, j: int)
    requires
        0 <= k < ACCENT_FAMILIES@.len(),
        0 <= j < 7,
    ensures
        ACCENT_FAMILIES@[k]@[j].0@ == BRAND_TOKEN_NAMES@[j + 1]@,
{
    law_families_set_the_same_tokens(k, j);
    assert(j == 0 || j == 1 || j == 2 || j == 3 || j == 4 || j == 5 || j == 6);
}

proof fn lemma_bare_family(k: int, j: int)
    requires
        0 <= k < ACCENT_FAMILIES@.len(),
        0 <= j < 7,
    ensures
        is_bare_text(ACCENT_FAMILIES@[k]@[j].1@),
{
    assert(k == 0 || k == 1 || k == 2 || k == 3 || k == 4 || k == 5);
    lemma_bare_family_0(j);
    lemma_bare_family_1(j);
    lemma_bare_family_2(j);
    lemma_bare_family_3(j);
    lemma_bare_family_4(j);
    lemma_bare_family_5(j);
}

/// `part` declares the `k`th token that a brand may set.
pub open spec fn declares(part: Seq<char>, k: int) -> bool {
    &&& 0 <= k < BRAND_TOKEN_NAMES@.len()
    &&& exists|value: Seq<char>|
        part == #[trigger] declaration(BRAND_TOKEN_NAMES@[k]@, value) && is_value_text(value)
}

/// `part` declares one of the tokens that a brand may set.
pub open spec fn declares_known_token(part: Seq<char>) -> bool {
    exists|k: int| #[trigger] declares(part, k)
}

/// The declarations set one token after another, from the `first` on.
spec fn set_from(parts: Seq<Seq<char>>, first: int) -> bool {
    forall|j: int| 0 <= j < parts.len() ==> declares(#[trigger] parts[j], first + j)
}

/// No declaration holds a quote.
spec fn are_unquoted(parts: Seq<Seq<char>>) -> bool {
    forall|j: int| 0 <= j < parts.len() ==> occurrences(#[trigger] parts[j], '"') == 0
}

proof fn lemma_occurrences_none(s: Seq<char>, c: char)
    requires
        forall|i: int| 0 <= i < s.len() ==> s[i] != c,
    ensures
        occurrences(s, c) == 0,
    decreases s.len(),
{
    if s.len() > 0 {
        lemma_occurrences_none(s.drop_last(), c);
    }
}

proof fn lemma_occurrences_concat(a: Seq<char>, b: Seq<char>, c: char)
    ensures
        occurrences(a + b, c) == occurrences(a, c) + occurrences(b, c),
    decreases b.len(),
{
    if b.len() == 0 {
        assert(a + b =~= a);
    } else {
        assert((a + b).drop_last() =~= a + b.drop_last());
        lemma_occurrences_concat(a, b.drop_last(), c);
    }
}

/// Where at most one of the texts holds a character, the joined text holds it as
/// often as that one.
proof fn lemma_occurrences_joined(parts: Seq<Seq<char>>, c: char, m: int)
    requires
        forall|i: int|
            0 <= i < parts.len() && i != m ==> occurrences(#[trigger] parts[i], c) == 0,
    ensures
        occurrences(joined(parts), c) == (if 0 <= m < parts.len() {
            occurrences(parts[m], c)
        } else {
            0
        }),
    decreases parts.len(),
{
    if parts.len() > 0 {
        let front = parts.drop_last();
        assert forall|i: int| 0 <= i < front.len() && i != m implies occurrences(
            #[trigger] front[i],
            c,
        ) == 0 by {
            assert(front[i] == parts[i]);
        }
        lemma_occurrences_joined(front, c, m);
        lemma_occurrences_concat(joined(front), parts.last(), c);
        if m != parts.len() - 1 {
            assert(occurrences(parts[parts.len() - 1], c) == 0);
        }
    }
}

/// A declaration of a token holds what its value holds, but for the colon and the
/// semicolon, and sets that token.
proof fn lemma_declaration(k: int, value: Seq<char>)
    requires
        0 <= k < BRAND_TOKEN_NAMES@.len(),
        is_value_text(value),
    ensures
        ({
            let part = declaration(BRAND_TOKEN_NAMES@[k]@, value);
            &&& declares(part, k)
            &&& is_style_text(part)
            &&& token_of(part) == BRAND_TOKEN_NAMES@[k]@
            &&& occurrences(part, '"') == occurrences(value, '"')
            &&& occurrences(part, '{') == 0
            &&& occurrences(part, '}') == 0
        }),
{
    let token = BRAND_TOKEN_NAMES@[k]@;
    let part = declaration(token, value);
    lemma_bare_tokens(k);
    reveal_strlit(":");
    reveal_strlit(";");
    assert forall|i: int| 0 <= i < part.len() implies is_style_char(#[trigger] part[i]) && part[i]
        != '{' && part[i] != '}' by {
        if i < token.len() {
            assert(is_value_char(token[i]));
        } else if token.len() < i < part.len() - 1 {
            assert(is_value_char(value[i - token.len() - 1]));
        }
    }
    assert forall|i: int| 0 <= i < token.len() implies part[i] != ':' by {
        assert(part[i] == token[i]);
    }
    lemma_prefix_len_is(part, ':', token.len() as int);
    assert(before(part, ':') =~= token);
    lemma_occurrences_none(token, '"');
    lemma_occurrences_none(":"@, '"');
    lemma_occurrences_none(";"@, '"');
    lemma_occurrences_concat(token, ":"@, '"');
    lemma_occurrences_concat(token + ":"@, value, '"');
    lemma_occurrences_concat(token + ":"@ + value, ";"@, '"');
    lemma_occurrences_none(part, '{');
    lemma_occurrences_none(part, '}');
}

/// A declaration of a bare value sets its token and holds no quote.
proof fn lemma_bare_declaration(k: int, value: Seq<char>)
    requires
        0 <= k < BRAND_TOKEN_NAMES@.len(),
        is_bare_text(value),
    ensures
        declares(declaration(BRAND_TOKEN_NAMES@[k]@, value), k),
        occurrences(declaration(BRAND_TOKEN_NAMES@[k]@, value), '"') == 0,
{
    lemma_declaration(k, value);
    lemma_occurrences_none(value, '"');
}

proof fn lemma_primary(row: JsonView)
    ensures
        set_from(primary_declarations(row), 0),
        are_unquoted(primary_declarations(row)),
        primary_declarations(row).len() <= 1,
{
    if let Some(value) = choice(row, "primary_color"@, PRIMARY_COLORS@) {
        reveal_strlit("#171717");
        reveal_strlit("#1d4ed8");
        reveal_strlit("#047857");
        reveal_strlit("#7c3aed");
        reveal_strlit("#be123c");
        let i = choose|i: int|
            0 <= i < PRIMARY_COLORS@.len() && (#[trigger] PRIMARY_COLORS@[i])@ == value;
        assert(i == 0 || i == 1 || i == 2 || i == 3 || i == 4);
        assert(is_bare_text(value));
        lemma_bare_declaration(0, value);
    }
}

proof fn lemma_accent(row: JsonView)
    ensures
        set_from(accent_declarations(row), 1),
        are_unquoted(accent_declarations(row)),
        accent_declarations(row).len() <= 7,
{
    if let Some(accent) = choice(row, "accent_color"@, ACCENT_COLORS@) {
        law_every_accent_has_its_family(accent);
        lemma_family_from(accent, 0);
        let k = choose|k: int|
            0 <= k < ACCENT_FAMILIES@.len() && family_from(accent, 0) == Some(
                (#[trigger] ACCENT_FAMILIES@[k])@,
            ) && ACCENT_FAMILIES@[k]@[0].1@ == accent;
        let parts = accent_declarations(row);
        assert forall|j: int| 0 <= j < parts.len() implies declares(#[trigger] parts[j], 1 + j)
            && occurrences(parts[j], '"') == 0 by {
            lemma_family_tokens(k, j);
            lemma_bare_family(k, j);
            lemma_bare_declaration(j + 1, ACCENT_FAMILIES@[k]@[j].1@);
        }
    }
}

proof fn lemma_radii(sm: Seq<char>, base: Seq<char>, md: Seq<char>, lg: Seq<char>)
    requires
        is_bare_text(sm),
        is_bare_text(base),
        is_bare_text(md),
        is_bare_text(lg),
    ensures
        set_from(radii(sm, base, md, lg), 8),
        are_unquoted(radii(sm, base, md, lg)),
{
    lemma_bare_declaration(8, sm);
    lemma_bare_declaration(9, base);
    lemma_bare_declaration(10, md);
    lemma_bare_declaration(11, lg);
}

proof fn lemma_radius(row: JsonView)
    ensures
        set_from(radius_declarations(row), 8),
        are_unquoted(radius_declarations(row)),
        radius_declarations(row).len() <= 4,
{
    reveal_strlit("2px");
    reveal_strlit("4px");
    reveal_strlit("6px");
    reveal_strlit("8px");
    reveal_strlit("10px");
    reveal_strlit("12px");
    reveal_strlit("14px");
    reveal_strlit("18px");
    lemma_radii("2px"@, "4px"@, "6px"@, "8px"@);
    lemma_radii("4px"@, "6px"@, "8px"@, "12px"@);
    lemma_radii("8px"@, "10px"@, "14px"@, "18px"@);
}

proof fn lemma_font(row: JsonView)
    ensures
        set_from(font_declarations(row), 12),
        are_unquoted(font_declarations(row)),
        font_declarations(row).len() <= 2,
{
    if let Some(family) = choice(row, "font_family_name"@, FONT_FAMILIES@) {
        reveal_strlit("Inter,InterVar,system-ui,sans-serif");
        reveal_strlit("system-ui,sans-serif");
        reveal_strlit("Georgia,serif");
        reveal_strlit("Verdana,sans-serif");
        reveal_strlit("var(--fui-font)");
        assert(is_bare_text(font_stack(family)));
        assert(is_bare_text("var(--fui-font)"@));
        lemma_bare_declaration(12, font_stack(family));
        lemma_bare_declaration(13, "var(--fui-font)"@);
    }
}

/// The value of a logo's declaration holds two quotes: those round the address.
proof fn lemma_logo_value(url: Seq<char>)
    requires
        is_logo_url(url),
    ensures
        is_value_text("url(\""@ + url + "\")"@),
        occurrences("url(\""@ + url + "\")"@, '"') == 2,
{
    let open = "url(\""@;
    let close = "\")"@;
    let value = open + url + close;
    reveal_strlit("url(\"");
    reveal_strlit("\")");
    law_logo_stays_in_its_slot(url);
    assert forall|i: int| 0 <= i < value.len() implies is_value_char(#[trigger] value[i]) by {
        if open.len() <= i < open.len() + url.len() {
            assert(is_style_char(url[i - open.len()]));
        }
    }
    lemma_occurrences_none(open.drop_last(), '"');
    assert(occurrences(open, '"') == 1);
    lemma_occurrences_none(url, '"');
    assert(close.drop_last() =~= seq!['"']);
    lemma_occurrences_none(seq!['"'].drop_last(), '"');
    assert(occurrences(close.drop_last(), '"') == 1);
    assert(occurrences(close, '"') == 1);
    lemma_occurrences_concat(open, url, '"');
    lemma_occurrences_concat(open + url, close, '"');
}

proof fn lemma_logo(row: JsonView)
    ensures
        set_from(logo_declarations(row), 14),
        logo_declarations(row).len() == (if logo_of(row) is Some {
            2nat
        } else {
            0
        }),
        logo_of(row) is Some ==> {
            &&& occurrences(logo_declarations(row)[0], '"') == 2
            &&& occurrences(logo_declarations(row)[1], '"') == 0
        },
{
    if let Some(url) = logo_of(row) {
        reveal_strlit("inline-block");
        lemma_logo_value(url);
        lemma_declaration(14, "url(\""@ + url + "\")"@);
        assert(is_bare_text("inline-block"@));
        lemma_bare_declaration(15, "inline-block"@);
    }
}

/// Which of the tokens that a brand may set the `i`th declaration of a row sets.
spec fn place(row: JsonView, i: int) -> int {
    let a = primary_declarations(row).len();
    let b = a + accent_declarations(row).len();
    let c = b + radius_declarations(row).len();
    let d = c + font_declarations(row).len();
    if i < a {
        i
    } else if i < b {
        i - a + 1
    } else if i < c {
        i - b + 8
    } else if i < d {
        i - c + 12
    } else {
        i - d + 14
    }
}

/// Each declaration of a row sets the token of its place, and none but the logo's
/// holds a quote.
proof fn lemma_place(row: JsonView, i: int)
    requires
        0 <= i < brand_declarations(row).len(),
    ensures
        declares(brand_declarations(row)[i], place(row, i)),
        logo_of(row) is Some && i == brand_declarations(row).len() - 2 ==> occurrences(
            brand_declarations(row)[i],
            '"',
        ) == 2,
        !(logo_of(row) is Some && i == brand_declarations(row).len() - 2) ==> occurrences(
            brand_declarations(row)[i],
            '"',
        ) == 0,
{
    lemma_primary(row);
    lemma_accent(row);
    lemma_radius(row);
    lemma_font(row);
    lemma_logo(row);
    let a = primary_declarations(row);
    let b = accent_declarations(row);
    let c = radius_declarations(row);
    let d = font_declarations(row);
    let e = logo_declarations(row);
    let part = brand_declarations(row)[i];
    if i < a.len() {
        assert(part == a[i]);
    } else if i < a.len() + b.len() {
        assert(part == b[i - a.len()]);
    } else if i < a.len() + b.len() + c.len() {
        assert(part == c[i - a.len() - b.len()]);
    } else if i < a.len() + b.len() + c.len() + d.len() {
        assert(part == d[i - a.len() - b.len() - c.len()]);
    } else {
        assert(part == e[i - a.len() - b.len() - c.len() - d.len()]);
    }
}

/// What a declaration of a known token is made of.
proof fn lemma_declares(part: Seq<char>, k: int)
    requires
        declares(part, k),
    ensures
        is_style_text(part),
        token_of(part) == BRAND_TOKEN_NAMES@[k]@,
        occurrences(part, '{') == 0,
        occurrences(part, '}') == 0,
{
    let value = choose|value: Seq<char>|
        part == #[trigger] declaration(BRAND_TOKEN_NAMES@[k]@, value) && is_value_text(value);
    lemma_declaration(k, value);
}

/// A brand sets none but the known tokens, each to a value that stays inside its
/// declaration.
pub proof fn law_only_known_tokens_are_set(row: JsonView, i: int)
    requires
        0 <= i < brand_declarations(row).len(),
    ensures
        declares_known_token(brand_declarations(row)[i]),
{
    lemma_place(row, i);
}

/// The tokens that a brand may set are distinct.
proof fn lemma_distinct_tokens(i: int, j: int)
    requires
        0 <= i < j < BRAND_TOKEN_NAMES@.len(),
    ensures
        BRAND_TOKEN_NAMES@[i]@ != BRAND_TOKEN_NAMES@[j]@,
{
    reveal_strlit("--fui-primary-bg");
    reveal_strlit("--fui-blue");
    reveal_strlit("--fui-blue-strong");
    reveal_strlit("--fui-blue-ink");
    reveal_strlit("--fui-blue-surface-1");
    reveal_strlit("--fui-blue-surface-2");
    reveal_strlit("--fui-blue-outline");
    reveal_strlit("--fui-focus-ring");
    reveal_strlit("--fui-radius-sm");
    reveal_strlit("--fui-radius");
    reveal_strlit("--fui-radius-md");
    reveal_strlit("--fui-radius-lg");
    reveal_strlit("--fui-font");
    reveal_strlit("--fui-font-sans");
    reveal_strlit("--fui-brand-logo-image");
    reveal_strlit("--fui-brand-logo-display");
    assert(BRAND_TOKEN_NAMES@[0]@.len() == 16 && BRAND_TOKEN_NAMES@[0]@[6] == 'p');
    assert(BRAND_TOKEN_NAMES@[1]@.len() == 10 && BRAND_TOKEN_NAMES@[1]@[6] == 'b');
    assert(BRAND_TOKEN_NAMES@[2]@.len() == 17 && BRAND_TOKEN_NAMES@[2]@[6] == 'b');
    assert(BRAND_TOKEN_NAMES@[3]@.len() == 14 && BRAND_TOKEN_NAMES@[3]@[6] == 'b');
    assert(BRAND_TOKEN_NAMES@[4]@.len() == 20 && BRAND_TOKEN_NAMES@[4]@[6] == 'b');
    assert(BRAND_TOKEN_NAMES@[5]@.len() == 20 && BRAND_TOKEN_NAMES@[5]@[6] == 'b');
    assert(BRAND_TOKEN_NAMES@[6]@.len() == 18 && BRAND_TOKEN_NAMES@[6]@[6] == 'b');
    assert(BRAND_TOKEN_NAMES@[7]@.len() == 16 && BRAND_TOKEN_NAMES@[7]@[6] == 'f');
    assert(BRAND_TOKEN_NAMES@[8]@.len() == 15 && BRAND_TOKEN_NAMES@[8]@[6] == 'r');
    assert(BRAND_TOKEN_NAMES@[9]@.len() == 12 && BRAND_TOKEN_NAMES@[9]@[6] == 'r');
    assert(BRAND_TOKEN_NAMES@[10]@.len() == 15 && BRAND_TOKEN_NAMES@[10]@[6] == 'r');
    assert(BRAND_TOKEN_NAMES@[11]@.len() == 15 && BRAND_TOKEN_NAMES@[11]@[6] == 'r');
    assert(BRAND_TOKEN_NAMES@[12]@.len() == 10 && BRAND_TOKEN_NAMES@[12]@[6] == 'f');
    assert(BRAND_TOKEN_NAMES@[13]@.len() == 15 && BRAND_TOKEN_NAMES@[13]@[6] == 'f');
    assert(BRAND_TOKEN_NAMES@[14]@.len() == 22 && BRAND_TOKEN_NAMES@[14]@[6] == 'b');
    assert(BRAND_TOKEN_NAMES@[15]@.len() == 24 && BRAND_TOKEN_NAMES@[15]@[6] == 'b');
    assert(BRAND_TOKEN_NAMES@[0]@.last() == 'g');
    assert(BRAND_TOKEN_NAMES@[1]@.last() == 'e');
    assert(BRAND_TOKEN_NAMES@[2]@.last() == 'g');
    assert(BRAND_TOKEN_NAMES@[3]@.last() == 'k');
    assert(BRAND_TOKEN_NAMES@[4]@.last() == '1');
    assert(BRAND_TOKEN_NAMES@[5]@.last() == '2');
    assert(BRAND_TOKEN_NAMES@[6]@.last() == 'e');
    assert(BRAND_TOKEN_NAMES@[7]@.last() == 'g');
    assert(BRAND_TOKEN_NAMES@[8]@.last() == 'm');
    assert(BRAND_TOKEN_NAMES@[9]@.last() == 's');
    assert(BRAND_TOKEN_NAMES@[10]@.last() == 'd');
    assert(BRAND_TOKEN_NAMES@[11]@.last() == 'g');
    assert(BRAND_TOKEN_NAMES@[12]@.last() == 't');
    assert(BRAND_TOKEN_NAMES@[13]@.last() == 's');
    assert(BRAND_TOKEN_NAMES@[14]@.last() == 'e');
    assert(BRAND_TOKEN_NAMES@[15]@.last() == 'y');
    assert(i == 0 || i == 1 || i == 2 || i == 3 || i == 4 || i == 5 || i == 6 || i == 7
        || i == 8 || i == 9 || i == 10 || i == 11 || i == 12 || i == 13 || i == 14 || i == 15);
    assert(j == 0 || j == 1 || j == 2 || j == 3 || j == 4 || j == 5 || j == 6 || j == 7
        || j == 8 || j == 9 || j == 10 || j == 11 || j == 12 || j == 13 || j == 14 || j == 15);
}

/// No token is set twice.
pub proof fn law_each_token_is_set_once(row: JsonView, i: int, j: int)
    requires
        0 <= i < j < brand_declarations(row).len(),
    ensures
        token_of(brand_declarations(row)[i]) != token_of(brand_declarations(row)[j]),
{
    lemma_place(row, i);
    lemma_place(row, j);
    lemma_declares(brand_declarations(row)[i], place(row, i));
    lemma_declares(brand_declarations(row)[j], place(row, j));
    lemma_primary(row);
    lemma_accent(row);
    lemma_radius(row);
    lemma_font(row);
    lemma_distinct_tokens(place(row, i), place(row, j));
}

/// Whatever a row holds, the style that it gives cannot leave the style element
/// it is rendered into: it is made of harmless characters alone.
pub proof fn law_style_is_harmless(row: JsonView)
    requires
        brand_css(row) is Some,
    ensures
        is_style_text(brand_css(row)->0),
{
    let parts = brand_declarations(row);
    assert forall|i: int| 0 <= i < parts.len() implies is_style_text(#[trigger] parts[i]) by {
        lemma_place(row, i);
        lemma_declares(parts[i], place(row, i));
    }
    lemma_style_joined(parts);
    reveal_strlit(":root.fui-root{");
    reveal_strlit("}");
    assert(is_style_text(":root.fui-root{"@));
    assert(is_style_text("}"@));
    lemma_style_concat(":root.fui-root{"@, joined(parts));
    lemma_style_concat(":root.fui-root{"@ + joined(parts), "}"@);
}

/// How often a character stands in the rule that frames the declarations.
proof fn lemma_frame(inner: Seq<char>)
    ensures
        ({
            let css = ":root.fui-root{"@ + inner + "}"@;
            &&& occurrences(css, '{') == 1 + occurrences(inner, '{')
            &&& occurrences(css, '}') == 1 + occurrences(inner, '}')
            &&& occurrences(css, '"') == occurrences(inner, '"')
        }),
{
    let open = ":root.fui-root{"@;
    let close = "}"@;
    reveal_strlit(":root.fui-root{");
    reveal_strlit("}");
    assert(open.last() == '{');
    assert(close.last() == '}');
    lemma_occurrences_none(open.drop_last(), '{');
    lemma_occurrences_none(close, '{');
    lemma_occurrences_none(open, '}');
    lemma_occurrences_none(close.drop_last(), '}');
    lemma_occurrences_none(open, '"');
    lemma_occurrences_none(close, '"');
    lemma_occurrences_concat(open, inner, '{');
    lemma_occurrences_concat(open + inner, close, '{');
    lemma_occurrences_concat(open, inner, '}');
    lemma_occurrences_concat(open + inner, close, '}');
    lemma_occurrences_concat(open, inner, '"');
    lemma_occurrences_concat(open + inner, close, '"');
}

/// The style is one rule: it holds one pair of braces, which opens behind the
/// selector and closes at the end.
pub proof fn law_style_is_one_rule(row: JsonView)
    requires
        brand_css(row) is Some,
    ensures
        occurrences(brand_css(row)->0, '{') == 1,
        occurrences(brand_css(row)->0, '}') == 1,
        begins_with(brand_css(row)->0, ":root.fui-root{"@),
        brand_css(row)->0.last() == '}',
{
    let parts = brand_declarations(row);
    let css = brand_css(row)->0;
    assert forall|i: int| 0 <= i < parts.len() implies occurrences(#[trigger] parts[i], '{') == 0
        && occurrences(parts[i], '}') == 0 by {
        lemma_place(row, i);
        lemma_declares(parts[i], place(row, i));
    }
    lemma_occurrences_joined(parts, '{', -1);
    lemma_occurrences_joined(parts, '}', -1);
    lemma_frame(joined(parts));
    let open = ":root.fui-root{"@;
    assert(css.subrange(0, open.len() as int) =~= open);
    reveal_strlit("}");
    assert(css.last() == "}"@.last());
}

/// Nothing but the logo's address is quoted: with a logo the style holds two
/// quotes, those of `url("...")`; without one it holds none.
pub proof fn law_only_the_logo_is_quoted(row: JsonView)
    requires
        brand_css(row) is Some,
    ensures
        match logo_of(row) {
            Some(url) => {
                &&& occurrences(brand_css(row)->0, '"') == 2
                &&& contains_text(
                    brand_css(row)->0,
                    declaration("--fui-brand-logo-image"@, "url(\""@ + url + "\")"@),
                )
            },
            None => occurrences(brand_css(row)->0, '"') == 0,
        },
{
    let parts = brand_declarations(row);
    let m = if logo_of(row) is Some {
        parts.len() - 2
    } else {
        -1
    };
    assert forall|i: int| 0 <= i < parts.len() && i != m implies occurrences(
        #[trigger] parts[i],
        '"',
    ) == 0 by {
        lemma_place(row, i);
    }
    lemma_logo(row);
    if logo_of(row) is Some {
        lemma_place(row, m);
        law_style_keeps_provenance(row);
    }
    lemma_occurrences_joined(parts, '"', m);
    lemma_frame(joined(parts));
}

/// A row gives a style if and only if it makes a choice out of one of the
/// vocabularies or names an accepted logo; unset fields and words of no
/// vocabulary give none.
pub proof fn law_no_choice_no_style(row: JsonView)
    ensures
        brand_css(row) is None <==> {
            &&& choice(row, "primary_color"@, PRIMARY_COLORS@) is None
            &&& choice(row, "accent_color"@, ACCENT_COLORS@) is None
            &&& choice(row, "corner_radius_scale"@, RADIUS_SCALES@) is None
            &&& choice(row, "font_family_name"@, FONT_FAMILIES@) is None
            &&& logo_of(row) is None
        },
{
    if let Some(accent) = choice(row, "accent_color"@, ACCENT_COLORS@) {
        law_every_accent_has_its_family(accent);
        assert(accent_declarations(row).len() == 7);
    }
}

/// A part of a list stands in the joined text.
proof fn lemma_joined_contains(parts: Seq<Seq<char>>, i: int) -> (at: int)
    requires
        0 <= i < parts.len(),
    ensures
        occurs_at(joined(parts), parts[i], at),
    decreases parts.len(),
{
    let front = joined(parts.drop_last());
    if i == parts.len() - 1 {
        let at = front.len() as int;
        assert(joined(parts).subrange(at, at + parts[i].len()) =~= parts[i]);
        at
    } else {
        let at = lemma_joined_contains(parts.drop_last(), i);
        assert(parts.drop_last()[i] == parts[i]);
        assert(joined(parts).subrange(at, at + parts[i].len()) =~= front.subrange(
            at,
            at + parts[i].len(),
        ));
        at
    }
}

/// Every declaration of a row stands in the style that it gives.
pub proof fn law_declarations_are_emitted(row: JsonView, i: int)
    requires
        0 <= i < brand_declarations(row).len(),
    ensures
        brand_css(row) is Some,
        contains_text(brand_css(row)->0, brand_declarations(row)[i]),
{
    let parts = brand_declarations(row);
    let at = lemma_joined_contains(parts, i);
    let open = ":root.fui-root{"@;
    let css = brand_css(row)->0;
    assert(css.subrange(open.len() + at, open.len() + at + parts[i].len()) =~= joined(
        parts,
    ).subrange(at, at + parts[i].len()));
    assert(occurs_at(css, parts[i], open.len() + at));
}

/// A row's own choices are what its style shows: the chosen primary color, the
/// chosen accent and the accepted logo each stand in it, as they are stored.
pub proof fn law_style_keeps_provenance(row: JsonView)
    ensures
        choice(row, "primary_color"@, PRIMARY_COLORS@) matches Some(color) ==> brand_css(row) is Some
            && contains_text(brand_css(row)->0, declaration("--fui-primary-bg"@, color)),
        choice(row, "accent_color"@, ACCENT_COLORS@) matches Some(accent) ==> brand_css(row) is Some
            && contains_text(brand_css(row)->0, declaration("--fui-blue"@, accent)),
        logo_of(row) matches Some(url) ==> brand_css(row) is Some && contains_text(
            brand_css(row)->0,
            declaration("--fui-brand-logo-image"@, "url(\""@ + url + "\")"@),
        ),
{
    let parts = brand_declarations(row);
    if let Some(color) = choice(row, "primary_color"@, PRIMARY_COLORS@) {
        assert(parts[0] == declaration("--fui-primary-bg"@, color));
        law_declarations_are_emitted(row, 0);
    }
    if let Some(accent) = choice(row, "accent_color"@, ACCENT_COLORS@) {
        law_every_accent_has_its_family(accent);
        let at = primary_declarations(row).len() as int;
        assert(accent_declarations(row)[0] == declaration("--fui-blue"@, accent));
        assert(parts[at] == declaration("--fui-blue"@, accent));
        law_declarations_are_emitted(row, at);
    }
    if let Some(url) = logo_of(row) {
        let at = parts.len() - 2;
        assert(parts[at] == logo_declarations(row)[0]);
        law_declarations_are_emitted(row, at);
    }
}

/// The tokens are set in the order in which they are listed.
pub proof fn law_tokens_keep_their_order(row: JsonView, i: int, j: int)
    requires
        0 <= i < j < brand_declarations(row).len(),
    ensures
        exists|p: int, q: int|
            p < q && #[trigger] declares(brand_declarations(row)[i], p) && #[trigger] declares(
                brand_declarations(row)[j],
                q,
            ),
{
    lemma_place(row, i);
    lemma_place(row, j);
    lemma_primary(row);
    lemma_accent(row);
    lemma_radius(row);
    lemma_font(row);
    assert(place(row, i) < place(row, j));
}

} // verus!
