//! What the text of a stylesheet defines and reads. Nothing types the seam between
//! a program and its stylesheet: a property that does not exist renders nearly
//! right and says nothing. So the text itself is read. The stylesheet is the
//! caller's; none is kept here.
use vstd::prelude::*;
use vstd::string::*;
use crate::text::{
    after, before, begins_with, chars_of, index_of, is_blank, is_white_space, law_trimming,
    lemma_prefix_len, lemma_prefix_len_is, occurs_at, prefix_len, same_text, stands_at, starts_with,
    string_of, trim, trimmed, white_space,
};

verus! {

/// The property that a line defines: what stands before the colon of a line
/// that begins with two hyphens.
pub open spec fn defined_on(line: Seq<char>) -> Option<Seq<char>> {
    let t = trimmed(line);
    if begins_with(t, "--"@) && prefix_len(t, ':') < t.len() {
        Some(before(t, ':'))
    } else {
        None
    }
}

/// `s` without the semicolons at its back.
pub open spec fn without_semicolons(s: Seq<char>) -> Seq<char>
    decreases s.len(),
{
    if s.len() > 0 && s.last() == ';' {
        without_semicolons(s.drop_last())
    } else {
        s
    }
}

/// The declaration of a line that defines a property: the property's name
/// without its hyphens, and its value.
pub open spec fn declared_on(line: Seq<char>) -> Option<(Seq<char>, Seq<char>)> {
    match defined_on(line) {
        Some(property) => Some(
            (property.skip(2), without_semicolons(trimmed(after(trimmed(line), ':')))),
        ),
        None => None,
    }
}

/// A list of what there is.
pub open spec fn listed<T>(found: Option<T>) -> Seq<T> {
    match found {
        Some(one) => seq![one],
        None => Seq::empty(),
    }
}

/// The properties that a stylesheet defines, line by line.
pub open spec fn definitions(css: Seq<char>) -> Seq<Seq<char>>
    decreases css.len(),
{
    let first = listed(defined_on(before(css, '\n')));
    if prefix_len(css, '\n') < css.len() {
        first + definitions(after(css, '\n'))
    } else {
        first
    }
}

/// The declarations of properties in a block, line by line.
pub open spec fn declarations(block: Seq<char>) -> Seq<(Seq<char>, Seq<char>)>
    decreases block.len(),
{
    let first = listed(declared_on(before(block, '\n')));
    if prefix_len(block, '\n') < block.len() {
        first + declarations(after(block, '\n'))
    } else {
        first
    }
}

/// A character that ends the name of a property that is read.
pub open spec fn ends_name(c: char) -> bool {
    c == ',' || c == ')' || is_white_space(c)
}

/// How many characters stand before the first that ends a name.
pub open spec fn name_len(s: Seq<char>) -> nat
    decreases s.len(),
{
    if s.len() == 0 || ends_name(s[0]) {
        0
    } else {
        1 + name_len(s.drop_first())
    }
}

/// A name is no longer than the text that it stands in.
pub proof fn lemma_name_len(s: Seq<char>)
    ensures
        name_len(s) <= s.len(),
    decreases s.len(),
{
    if s.len() > 0 && !ends_name(s[0]) {
        lemma_name_len(s.drop_first());
    }
}

/// The properties that a stylesheet reads, in order: each name stands behind
/// `var(`, and the search goes on behind it.
pub open spec fn references(css: Seq<char>) -> Seq<Seq<char>>
    decreases css.len(),
{
    if css.len() == 0 {
        Seq::empty()
    } else if begins_with(css, "var(--"@) {
        let name = css.skip(4);
        proof {
            reveal_strlit("var(--");
            lemma_name_len(name);
        }
        seq![name.take(name_len(name) as int)] + references(name.skip(name_len(name) as int))
    } else {
        references(css.drop_first())
    }
}

/// Where a text first stands at or after a place.
pub open spec fn found_from(s: Seq<char>, pat: Seq<char>, at: int) -> Option<int>
    decreases s.len() + 1 - at,
{
    if at > s.len() {
        None
    } else if occurs_at(s, pat, at) {
        Some(at)
    } else {
        found_from(s, pat, at + 1)
    }
}

/// Where the brace stands that closes the `depth` ones open before `at`.
pub open spec fn closed_at(s: Seq<char>, at: int, depth: nat) -> Option<int>
    decreases s.len() - at,
{
    if at >= s.len() || depth == 0 {
        None
    } else if s[at] == '}' && depth == 1 {
        Some(at)
    } else if s[at] == '}' {
        closed_at(s, at + 1, (depth - 1) as nat)
    } else if s[at] == '{' {
        closed_at(s, at + 1, depth + 1)
    } else {
        closed_at(s, at + 1, depth)
    }
}

/// The block of the first rule with that selector: what stands between its
/// braces.
pub open spec fn block_of(css: Seq<char>, selector: Seq<char>) -> Option<Seq<char>> {
    match found_from(css, selector, 0) {
        Some(start) => {
            let open = start + prefix_len(css.skip(start), '{');
            if open < css.len() {
                match closed_at(css, open + 1, 1) {
                    Some(close) => Some(css.subrange(open + 1, close)),
                    None => None,
                }
            } else {
                None
            }
        },
        None => None,
    }
}

/// The texts of a list of strings.
pub open spec fn texts(strings: Seq<String>) -> Seq<Seq<char>> {
    strings.map_values(|text: String| text@)
}

/// The texts of a list of pairs of strings.
pub open spec fn pair_texts(pairs: Seq<(String, String)>) -> Seq<(Seq<char>, Seq<char>)> {
    pairs.map_values(|pair: (String, String)| (pair.0@, pair.1@))
}

/// Each text of a list once, where it first stands.
pub open spec fn once(list: Seq<Seq<char>>) -> Seq<Seq<char>>
    decreases list.len(),
{
    if list.len() == 0 {
        Seq::empty()
    } else if list.drop_last().contains(list.last()) {
        once(list.drop_last())
    } else {
        once(list.drop_last()).push(list.last())
    }
}

/// The names of declarations.
pub open spec fn names_of(pairs: Seq<(Seq<char>, Seq<char>)>) -> Seq<Seq<char>> {
    pairs.map_values(|pair: (Seq<char>, Seq<char>)| pair.0)
}

/// The value of each name that declarations give one: the last.
pub open spec fn values_of(pairs: Seq<(Seq<char>, Seq<char>)>) -> Map<Seq<char>, Seq<char>>
    decreases pairs.len(),
{
    if pairs.len() == 0 {
        Map::empty()
    } else {
        values_of(pairs.drop_last()).insert(pairs.last().0, pairs.last().1)
    }
}

/// Listing each text once leaves none out and none twice.
proof fn lemma_once(list: Seq<Seq<char>>)
    ensures
        once(list).no_duplicates(),
        forall|text: Seq<char>| #[trigger] once(list).contains(text) <==> list.contains(text),
    decreases list.len(),
{
    if list.len() > 0 {
        let front = list.drop_last();
        let last = list.last();
        lemma_once(front);
        assert forall|text: Seq<char>| #[trigger] once(list).contains(text) <==> list.contains(
            text,
        ) by {
            if list.contains(text) {
                let i = choose|i: int| 0 <= i < list.len() && list[i] == text;
                if i < front.len() {
                    assert(front[i] == text);
                    assert(once(front).contains(text));
                    let k = choose|k: int| 0 <= k < once(front).len() && once(front)[k] == text;
                    assert(once(list)[k] == text);
                } else if front.contains(last) {
                    assert(once(front).contains(text));
                } else {
                    assert(once(list)[once(front).len() as int] == text);
                }
            }
            if once(list).contains(text) {
                let k = choose|k: int| 0 <= k < once(list).len() && once(list)[k] == text;
                if k < once(front).len() {
                    assert(once(front)[k] == text);
                    assert(once(front).contains(text));
                    let i = choose|i: int| 0 <= i < front.len() && front[i] == text;
                    assert(list[i] == text);
                } else {
                    assert(list[list.len() - 1] == text);
                }
            }
        }
        if !front.contains(last) {
            assert forall|i: int, j: int|
                0 <= i < once(list).len() && 0 <= j < once(list).len() && i != j implies once(
                list,
            )[i] != once(list)[j] by {
                if i == once(front).len() {
                    assert(once(front).contains(once(front)[j]));
                } else if j == once(front).len() {
                    assert(once(front).contains(once(front)[i]));
                }
            }
        }
    }
}

/// Exactly the names of declarations have a value.
proof fn lemma_values_of(pairs: Seq<(Seq<char>, Seq<char>)>)
    ensures
        forall|name: Seq<char>| #[trigger]
            values_of(pairs).contains_key(name) <==> names_of(pairs).contains(name),
    decreases pairs.len(),
{
    if pairs.len() > 0 {
        let front = pairs.drop_last();
        lemma_values_of(front);
        assert(names_of(pairs) =~= names_of(front).push(pairs.last().0));
        assert forall|name: Seq<char>| #[trigger]
            values_of(pairs).contains_key(name) <==> names_of(pairs).contains(name) by {
            assert(values_of(front).contains_key(name) <==> names_of(front).contains(name));
            if names_of(front).contains(name) {
                let i = choose|i: int|
                    0 <= i < names_of(front).len() && names_of(front)[i] == name;
                assert(names_of(pairs)[i] == name);
            }
            if name == pairs.last().0 {
                assert(names_of(pairs)[pairs.len() - 1] == name);
            }
            if names_of(pairs).contains(name) && name != pairs.last().0 {
                let i = choose|i: int|
                    0 <= i < names_of(pairs).len() && names_of(pairs)[i] == name;
                assert(names_of(front)[i] == name);
            }
        }
    }
}

/// A stylesheet as it is served: the portable rules, then those of the Desk's own
/// frame.
pub fn served_css(design: &str, chrome: &str) -> (css: String)
    ensures
        css@ == design@ + chrome@,
{
    design.to_string().concat(chrome)
}

fn property_of(line: &str) -> (property: Option<String>)
    ensures
        match property {
            Some(text) => defined_on(line@) == Some(text@),
            None => defined_on(line@) is None,
        },
{
    let t = trim(line);
    if !starts_with(t, "--") {
        return None;
    }
    let chars = chars_of(t);
    let colon: usize = index_of(&chars, 0, chars.len(), ':');
    proof {
        assert(chars@.subrange(0, chars@.len() as int) =~= t@);
    }
    if colon == chars.len() {
        return None;
    }
    proof {
        assert(chars@.subrange(0, colon as int) =~= before(t@, ':'));
    }
    Some(string_of(&chars, 0, colon))
}

/// The properties that a stylesheet defines, line by line.
fn definition_list(css: &str) -> (properties: Vec<String>)
    ensures
        texts(properties@) == definitions(css@),
{
    let chars = chars_of(css);
    let len: usize = chars.len();
    let mut properties: Vec<String> = Vec::new();
    let mut at: usize = 0;
    proof {
        assert(css@.skip(0) =~= css@);
        assert(texts(properties@) + definitions(css@) =~= definitions(css@));
    }
    loop
        invariant_except_break
            texts(properties@) + definitions(css@.skip(at as int)) == definitions(css@),
        invariant
            at <= len,
            len == chars@.len(),
            chars@ == css@,
        ensures
            texts(properties@) == definitions(css@),
        decreases len - at,
    {
        let ghost rest = css@.skip(at as int);
        let ghost so_far = texts(properties@);
        let end: usize = index_of(&chars, at, len, '\n');
        let line = string_of(&chars, at, end);
        proof {
            lemma_prefix_len(rest, '\n');
            assert(chars@.subrange(at as int, len as int) =~= rest);
            assert(line@ =~= before(rest, '\n'));
        }
        if let Some(property) = property_of(line.as_str()) {
            properties.push(property);
        }
        proof {
            assert(texts(properties@) =~= so_far + listed(defined_on(line@)));
        }
        if end == len {
            proof {
                assert(definitions(rest) =~= listed(defined_on(line@)));
            }
            break;
        }
        at = end + 1;
        proof {
            assert(after(rest, '\n') =~= css@.skip(at as int));
            assert(texts(properties@) + definitions(css@.skip(at as int)) =~= so_far + definitions(
                rest,
            ));
        }
    }
    properties
}

fn is_among(properties: &Vec<String>, property: &str) -> (yes: bool)
    ensures
        yes == texts(properties@).contains(property@),
{
    let mut i: usize = 0;
    while i < properties.len()
        invariant
            i <= properties@.len(),
            forall|j: int| 0 <= j < i ==> #[trigger] texts(properties@)[j] != property@,
        decreases properties@.len() - i,
    {
        if same_text(properties[i].as_str(), property) {
            proof {
                assert(texts(properties@)[i as int] == property@);
            }
            return true;
        }
        i += 1;
    }
    false
}

/// The properties that a stylesheet defines, each once, in the order of the lines.
pub fn defined_properties(css: &str) -> (properties: Vec<String>)
    ensures
        texts(properties@) == once(definitions(css@)),
        texts(properties@).no_duplicates(),
        forall|property: Seq<char>| #[trigger]
            texts(properties@).contains(property) <==> definitions(css@).contains(property),
{
    let list = definition_list(css);
    let ghost all = definitions(css@);
    let mut properties: Vec<String> = Vec::new();
    let mut i: usize = 0;
    proof {
        assert(texts(properties@) =~= once(all.take(0)));
    }
    while i < list.len()
        invariant
            i <= list@.len(),
            all == texts(list@),
            texts(properties@) == once(all.take(i as int)),
        decreases list@.len() - i,
    {
        let ghost so_far = texts(properties@);
        proof {
            lemma_once(all.take(i as int));
            assert(all.take(i + 1).drop_last() =~= all.take(i as int));
        }
        if !is_among(&properties, list[i].as_str()) {
            properties.push(list[i].as_str().to_string());
            proof {
                assert(texts(properties@) =~= so_far.push(all[i as int]));
            }
        }
        i += 1;
    }
    proof {
        assert(all.take(i as int) =~= all);
        lemma_once(all);
    }
    properties
}

fn value_of(line: &str) -> (value: String)
    ensures
        value@ == without_semicolons(trimmed(after(trimmed(line@), ':'))),
{
    let t = trim(line);
    let chars = chars_of(t);
    let colon: usize = index_of(&chars, 0, chars.len(), ':');
    proof {
        assert(chars@.subrange(0, chars@.len() as int) =~= t@);
    }
    let from: usize = if colon < chars.len() {
        colon + 1
    } else {
        colon
    };
    let raw = string_of(&chars, from, chars.len());
    proof {
        assert(raw@ =~= after(t@, ':'));
    }
    let value = chars_of(trim(raw.as_str()));
    let mut end: usize = value.len();
    proof {
        assert(value@.take(end as int) =~= value@);
    }
    while end > 0 && value[end - 1] == ';'
        invariant
            end <= value@.len(),
            without_semicolons(value@.take(end as int)) == without_semicolons(value@),
        decreases end,
    {
        proof {
            assert(value@.take(end as int).drop_last() =~= value@.take(end - 1));
        }
        end -= 1;
    }
    proof {
        assert(value@.subrange(0, end as int) =~= value@.take(end as int));
    }
    string_of(&value, 0, end)
}

fn declaration_of(line: &str) -> (pair: Option<(String, String)>)
    ensures
        match pair {
            Some(found) => declared_on(line@) == Some((found.0@, found.1@)),
            None => declared_on(line@) is None,
        },
{
    let property = match property_of(line) {
        Some(property) => property,
        None => return None,
    };
    let chars = chars_of(property.as_str());
    proof {
        let t = trimmed(line@);
        reveal_strlit("--");
        lemma_prefix_len(t, ':');
        assert(t.subrange(0, 2)[0] == '-' && t.subrange(0, 2)[1] == '-');
        assert(prefix_len(t, ':') >= 2);
    }
    let name = string_of(&chars, 2, chars.len());
    proof {
        assert(name@ =~= property@.skip(2));
    }
    Some((name, value_of(line)))
}

/// The declarations of properties in a block, line by line: each name, without
/// its hyphens, with its value.
fn declaration_list(block: &str) -> (pairs: Vec<(String, String)>)
    ensures
        pair_texts(pairs@) == declarations(block@),
{
    let chars = chars_of(block);
    let len: usize = chars.len();
    let mut pairs: Vec<(String, String)> = Vec::new();
    let mut at: usize = 0;
    proof {
        assert(block@.skip(0) =~= block@);
        assert(pair_texts(pairs@) + declarations(block@) =~= declarations(block@));
    }
    loop
        invariant_except_break
            pair_texts(pairs@) + declarations(block@.skip(at as int)) == declarations(block@),
        invariant
            at <= len,
            len == chars@.len(),
            chars@ == block@,
        ensures
            pair_texts(pairs@) == declarations(block@),
        decreases len - at,
    {
        let ghost rest = block@.skip(at as int);
        let ghost so_far = pair_texts(pairs@);
        let end: usize = index_of(&chars, at, len, '\n');
        let line = string_of(&chars, at, end);
        proof {
            lemma_prefix_len(rest, '\n');
            assert(chars@.subrange(at as int, len as int) =~= rest);
            assert(line@ =~= before(rest, '\n'));
        }
        if let Some(pair) = declaration_of(line.as_str()) {
            pairs.push(pair);
        }
        proof {
            assert(pair_texts(pairs@) =~= so_far + listed(declared_on(line@)));
        }
        if end == len {
            proof {
                assert(declarations(rest) =~= listed(declared_on(line@)));
            }
            break;
        }
        at = end + 1;
        proof {
            assert(after(rest, '\n') =~= block@.skip(at as int));
            assert(pair_texts(pairs@) + declarations(block@.skip(at as int)) =~= so_far
                + declarations(rest));
        }
    }
    pairs
}

fn index_named(pairs: &Vec<(String, String)>, name: &str) -> (at: Option<usize>)
    ensures
        match at {
            Some(i) => i < pairs@.len() && pairs@[i as int].0@ == name@,
            None => !names_of(pair_texts(pairs@)).contains(name@),
        },
{
    let mut i: usize = 0;
    while i < pairs.len()
        invariant
            i <= pairs@.len(),
            forall|j: int| 0 <= j < i ==> #[trigger] names_of(pair_texts(pairs@))[j] != name@,
        decreases pairs@.len() - i,
    {
        if same_text(pairs[i].0.as_str(), name) {
            return Some(i);
        }
        i += 1;
    }
    None
}

/// The properties that a block declares, each once, in the order of the lines: its
/// name, without the hyphens, and the last value that it is given.
pub fn declared_properties(block: &str) -> (pairs: Vec<(String, String)>)
    ensures
        names_of(pair_texts(pairs@)) == once(names_of(declarations(block@))),
        names_of(pair_texts(pairs@)).no_duplicates(),
        forall|name: Seq<char>| #[trigger]
            names_of(pair_texts(pairs@)).contains(name) <==> values_of(
                declarations(block@),
            ).contains_key(name),
        forall|i: int|
            0 <= i < pairs@.len() ==> (#[trigger] pairs@[i]).1@ == values_of(
                declarations(block@),
            )[pairs@[i].0@],
{
    let list = declaration_list(block);
    let ghost all = declarations(block@);
    let ghost names = names_of(all);
    let mut pairs: Vec<(String, String)> = Vec::new();
    let mut i: usize = 0;
    proof {
        assert(names_of(pair_texts(pairs@)) =~= once(names.take(0)));
    }
    while i < list.len()
        invariant
            i <= list@.len(),
            all == pair_texts(list@),
            names == names_of(all),
            names_of(pair_texts(pairs@)) == once(names.take(i as int)),
            forall|j: int|
                0 <= j < pairs@.len() ==> (#[trigger] pairs@[j]).1@ == values_of(
                    all.take(i as int),
                )[pairs@[j].0@],
        decreases list@.len() - i,
    {
        let ghost old_pairs = pairs@;
        let ghost old_names = names_of(pair_texts(pairs@));
        let ghost name = all[i as int].0;
        let ghost value = all[i as int].1;
        proof {
            lemma_once(names.take(i as int));
            assert(names.take(i + 1).drop_last() =~= names.take(i as int));
            assert(names.take(i + 1).last() == name);
            assert(all.take(i + 1).drop_last() =~= all.take(i as int));
            assert(values_of(all.take(i + 1)) == values_of(all.take(i as int)).insert(name, value));
        }
        let pair = (list[i].0.as_str().to_string(), list[i].1.as_str().to_string());
        match index_named(&pairs, list[i].0.as_str()) {
            Some(at) => {
                proof {
                    assert(old_names[at as int] == name);
                    assert(old_names.contains(name));
                }
                pairs.set(at, pair);
                proof {
                    assert(names_of(pair_texts(pairs@)) =~= old_names);
                    assert forall|j: int| 0 <= j < pairs@.len() implies (#[trigger] pairs@[j]).1@
                        == values_of(all.take(i + 1))[pairs@[j].0@] by {
                        if j != at {
                            assert(old_names[j] != old_names[at as int]);
                            assert(pairs@[j] == old_pairs[j]);
                        }
                    }
                }
            },
            None => {
                pairs.push(pair);
                proof {
                    assert(names_of(pair_texts(pairs@)) =~= old_names.push(name));
                    assert forall|j: int| 0 <= j < pairs@.len() implies (#[trigger] pairs@[j]).1@
                        == values_of(all.take(i + 1))[pairs@[j].0@] by {
                        if j < old_pairs.len() {
                            assert(old_names[j] == pairs@[j].0@);
                            assert(old_names.contains(old_names[j]));
                            assert(pairs@[j] == old_pairs[j]);
                        }
                    }
                }
            },
        }
        i += 1;
    }
    proof {
        assert(all.take(i as int) =~= all);
        assert(names.take(i as int) =~= names);
        lemma_once(names);
        lemma_values_of(all);
    }
    pairs
}

fn name_end(chars: &Vec<char>, from: usize) -> (end: usize)
    requires
        from <= chars@.len(),
    ensures
        from <= end <= chars@.len(),
        end - from == name_len(chars@.skip(from as int)),
{
    let mut end: usize = from;
    while end < chars.len() && !(chars[end] == ',' || chars[end] == ')' || white_space(chars[end]))
        invariant
            from <= end <= chars@.len(),
            end - from + name_len(chars@.skip(end as int)) == name_len(chars@.skip(from as int)),
        decreases chars@.len() - end,
    {
        proof {
            assert(chars@.skip(end as int).drop_first() =~= chars@.skip(end + 1));
        }
        end += 1;
    }
    end
}

/// The properties that a stylesheet reads, in order.
pub fn referenced_properties(css: &str) -> (properties: Vec<String>)
    ensures
        texts(properties@) == references(css@),
{
    let chars = chars_of(css);
    let mark = chars_of("var(--");
    let mut properties: Vec<String> = Vec::new();
    let mut at: usize = 0;
    proof {
        reveal_strlit("var(--");
        assert(css@.skip(0) =~= css@);
        assert(texts(properties@) + references(css@) =~= references(css@));
    }
    while at < chars.len()
        invariant
            at <= chars@.len(),
            chars@ == css@,
            mark@ == "var(--"@,
            mark@.len() == 6,
            texts(properties@) + references(css@.skip(at as int)) == references(css@),
        decreases chars@.len() - at,
    {
        let ghost rest = css@.skip(at as int);
        let ghost so_far = texts(properties@);
        let found = stands_at(&chars, &mark, at);
        proof {
            if at + 6 <= chars@.len() {
                assert(rest.subrange(0, 6) =~= chars@.subrange(at as int, at + 6));
            }
            assert(found == begins_with(rest, "var(--"@));
        }
        if found {
            let end: usize = name_end(&chars, at + 4);
            let property = string_of(&chars, at + 4, end);
            properties.push(property);
            proof {
                let name = rest.skip(4);
                assert(name =~= chars@.skip(at + 4));
                assert(property@ =~= name.take(name_len(name) as int));
                assert(name.skip(name_len(name) as int) =~= css@.skip(end as int));
                assert(texts(properties@) =~= so_far.push(property@));
                assert(texts(properties@) + references(css@.skip(end as int)) =~= so_far
                    + references(rest));
            }
            at = end;
        } else {
            proof {
                assert(rest.drop_first() =~= css@.skip(at + 1));
            }
            at += 1;
        }
    }
    proof {
        assert(css@.skip(at as int).len() == 0);
        assert(texts(properties@) + references(css@.skip(at as int)) =~= texts(properties@));
    }
    properties
}

fn find_from(chars: &Vec<char>, pat: &Vec<char>) -> (found: Option<usize>)
    ensures
        match found {
            Some(at) => at <= chars@.len() && found_from(chars@, pat@, 0) == Some(at as int),
            None => found_from(chars@, pat@, 0) is None,
        },
{
    let mut at: usize = 0;
    while at < chars.len()
        invariant
            at <= chars@.len(),
            found_from(chars@, pat@, at as int) == found_from(chars@, pat@, 0),
        decreases chars@.len() - at,
    {
        if stands_at(chars, pat, at) {
            return Some(at);
        }
        at += 1;
    }
    if stands_at(chars, pat, at) {
        Some(at)
    } else {
        proof {
            assert(found_from(chars@, pat@, at + 1) is None);
        }
        None
    }
}

fn close_of(chars: &Vec<char>, from: usize) -> (close: Option<usize>)
    requires
        1 <= from <= chars@.len(),
    ensures
        match close {
            Some(at) => from <= at < chars@.len() && closed_at(chars@, from as int, 1) == Some(
                at as int,
            ),
            None => closed_at(chars@, from as int, 1) is None,
        },
{
    let mut at: usize = from;
    let mut depth: usize = 1;
    while at < chars.len()
        invariant
            1 <= from <= at <= chars@.len(),
            1 <= depth <= at - from + 1,
            closed_at(chars@, at as int, depth as nat) == closed_at(chars@, from as int, 1),
        decreases chars@.len() - at,
    {
        if chars[at] == '}' {
            if depth == 1 {
                return Some(at);
            }
            depth -= 1;
        } else if chars[at] == '{' {
            depth += 1;
        }
        at += 1;
    }
    None
}

/// The block of the first rule with that selector; none where there is no such
/// rule, or where its block does not end.
pub fn selector_block(css: &str, selector: &str) -> (block: Option<String>)
    ensures
        match block {
            Some(text) => block_of(css@, selector@) == Some(text@),
            None => block_of(css@, selector@) is None,
        },
{
    let chars = chars_of(css);
    let start: usize = match find_from(&chars, &chars_of(selector)) {
        Some(start) => start,
        None => return None,
    };
    let open: usize = index_of(&chars, start, chars.len(), '{');
    proof {
        assert(chars@.subrange(start as int, chars@.len() as int) =~= css@.skip(start as int));
    }
    if open == chars.len() {
        return None;
    }
    match close_of(&chars, open + 1) {
        Some(close) => Some(string_of(&chars, open + 1, close)),
        None => None,
    }
}

/// Every property that a stylesheet reads is one that it defines.
pub open spec fn is_closed(css: Seq<char>) -> bool {
    forall|i: int|
        0 <= i < references(css).len() ==> definitions(css).contains(#[trigger] references(css)[i])
}

/// Whether every property that a stylesheet reads is one that it defines.
pub fn every_reference_is_defined(css: &str) -> (yes: bool)
    ensures
        yes == is_closed(css@),
{
    let defined = defined_properties(css);
    let referenced = referenced_properties(css);
    let mut i: usize = 0;
    while i < referenced.len()
        invariant
            i <= referenced@.len(),
            texts(referenced@) == references(css@),
            forall|property: Seq<char>| #[trigger]
                texts(defined@).contains(property) <==> definitions(css@).contains(property),
            forall|j: int|
                0 <= j < i ==> definitions(css@).contains(#[trigger] references(css@)[j]),
        decreases referenced@.len() - i,
    {
        proof {
            assert(references(css@)[i as int] == referenced@[i as int]@);
        }
        if !is_among(&defined, referenced[i].as_str()) {
            return false;
        }
        i += 1;
    }
    proof {
        assert(texts(referenced@).len() == referenced@.len());
    }
    true
}

/// Listing each text once leaves none out and none twice, and keeps each where it first
/// stood.
pub proof fn law_each_once(list: Seq<Seq<char>>, text: Seq<char>)
    ensures
        once(list).no_duplicates(),
        once(list).contains(text) <==> list.contains(text),
        list.contains(text) ==> once(list.push(text)) == once(list),
        !list.contains(text) ==> once(list.push(text)) == once(list).push(text),
        once(Seq::empty()) == Seq::<Seq<char>>::empty(),
{
    lemma_once(list);
    assert(list.push(text).drop_last() =~= list);
}

/// A name has the value of its last declaration, and a name without one has none.
pub proof fn law_the_last_value_stands(pairs: Seq<(Seq<char>, Seq<char>)>, i: int)
    requires
        0 <= i < pairs.len(),
        forall|j: int| i < j < pairs.len() ==> (#[trigger] pairs[j]).0 != pairs[i].0,
    ensures
        values_of(pairs).contains_key(pairs[i].0),
        values_of(pairs)[pairs[i].0] == pairs[i].1,
        forall|name: Seq<char>|
            (forall|j: int| 0 <= j < pairs.len() ==> (#[trigger] pairs[j]).0 != name)
                ==> !#[trigger] values_of(pairs).contains_key(name),
    decreases pairs.len(),
{
    lemma_values_of(pairs);
    assert forall|name: Seq<char>|
        (forall|j: int|
            0 <= j < pairs.len() ==> (#[trigger] pairs[j]).0
                != name) implies !#[trigger] values_of(pairs).contains_key(name) by {
        if names_of(pairs).contains(name) {
            let j = choose|j: int| 0 <= j < names_of(pairs).len() && names_of(pairs)[j] == name;
            assert(pairs[j].0 == name);
        }
    }
    if i < pairs.len() - 1 {
        let front = pairs.drop_last();
        assert(pairs[pairs.len() - 1].0 != pairs[i].0);
        assert forall|j: int| i < j < front.len() implies (#[trigger] front[j]).0 != front[i].0 by {
            assert(pairs[j].0 != pairs[i].0);
        }
        law_the_last_value_stands(front, i);
    }
}

/// Lines are read one by one.
pub proof fn law_lines_are_read_one_by_one(line: Seq<char>, rest: Seq<char>)
    requires
        !line.contains('\n'),
    ensures
        definitions(line + seq!['\n'] + rest) == definitions(line) + definitions(rest),
        declarations(line + seq!['\n'] + rest) == declarations(line) + declarations(rest),
{
    let all = line + seq!['\n'] + rest;
    assert forall|i: int| 0 <= i < line.len() implies line[i] != '\n' && all[i] != '\n' by {
        assert(line.contains(line[i]));
        assert(all[i] == line[i]);
    }
    lemma_prefix_len_is(line, '\n', line.len() as int);
    lemma_prefix_len_is(all, '\n', line.len() as int);
    assert(before(line, '\n') =~= line);
    assert(before(all, '\n') =~= line);
    assert(after(all, '\n') =~= rest);
}

/// A line of two hyphens, a name, a colon and a value, with white space round it, defines
/// the property of that name and declares it with that value, which goes without the
/// white space and the semicolons at its ends.
pub proof fn law_a_line_defines_its_property(
    front: Seq<char>,
    name: Seq<char>,
    gap: Seq<char>,
    value: Seq<char>,
    semicolons: Seq<char>,
    back: Seq<char>,
)
    requires
        is_blank(front),
        is_blank(gap),
        is_blank(back),
        !name.contains(':'),
        forall|i: int| 0 <= i < semicolons.len() ==> semicolons[i] == ';',
        value.len() > 0 ==> value.last() != ';' && !is_white_space(value[0]),
        semicolons.len() == 0 && value.len() > 0 ==> !is_white_space(value.last()),
        value.len() + semicolons.len() == 0 ==> gap.len() == 0,
        ({
            let written = seq!['-', '-'] + name + seq![':'] + gap + value + semicolons;
            let line = front + written + back;
            !line.contains('\n')
        }),
    ensures
        ({
            let written = seq!['-', '-'] + name + seq![':'] + gap + value + semicolons;
            let line = front + written + back;
            &&& definitions(line) == seq![seq!['-', '-'] + name]
            &&& declarations(line) == seq![(name, value)]
        }),
{
    let hyphens = seq!['-', '-'];
    let t = hyphens + name + seq![':'] + gap + value + semicolons;
    let line = front + t + back;
    let given = value + semicolons;
    reveal_strlit("--");
    assert("--"@ =~= hyphens);
    lemma_whole_line(line);
    let colon = 2 + name.len() as int;
    assert(t[0] == '-' && t[colon] == ':');
    if given.len() > 0 {
        assert(t.last() == given.last());
        if semicolons.len() > 0 {
            assert(given.last() == semicolons[semicolons.len() - 1]);
            if value.len() == 0 {
                assert(given[0] == semicolons[0]);
            } else {
                assert(given[0] == value[0]);
            }
        } else {
            assert(given =~= value);
        }
    } else {
        assert(t.last() == ':');
    }
    law_trimming(front, t, back);
    assert(t.subrange(0, 2) =~= "--"@);
    assert forall|i: int| 0 <= i < colon implies t[i] != ':' by {
        if i >= 2 {
            assert(name.contains(name[i - 2]));
            assert(t[i] == name[i - 2]);
        }
    }
    lemma_prefix_len_is(t, ':', colon);
    assert(before(t, ':') =~= hyphens + name);
    assert((hyphens + name).skip(2) =~= name);
    assert(after(t, ':') =~= gap + given);
    assert(gap + given =~= gap + given + Seq::<char>::empty());
    law_trimming(gap, given, Seq::empty());
    lemma_semicolons(value, semicolons);
}

/// A line that does not begin with two hyphens, or that has no colon, defines nothing.
pub proof fn law_any_other_line_defines_nothing(front: Seq<char>, t: Seq<char>, back: Seq<char>)
    requires
        is_blank(front),
        is_blank(back),
        !(front + t + back).contains('\n'),
        t.len() > 0 ==> !is_white_space(t[0]) && !is_white_space(t.last()),
        t.len() < 2 || t[0] != '-' || t[1] != '-' || !t.contains(':'),
    ensures
        definitions(front + t + back) == Seq::<Seq<char>>::empty(),
        declarations(front + t + back) == Seq::<(Seq<char>, Seq<char>)>::empty(),
{
    law_trimming(front, t, back);
    lemma_whole_line(front + t + back);
    reveal_strlit("--");
    if begins_with(t, "--"@) {
        assert(t.subrange(0, 2)[0] == t[0] && t.subrange(0, 2)[1] == t[1]);
        lemma_prefix_len(t, ':');
        if prefix_len(t, ':') < t.len() {
            assert(t.contains(t[prefix_len(t, ':') as int]));
        }
    }
}

proof fn lemma_whole_line(line: Seq<char>)
    requires
        !line.contains('\n'),
    ensures
        prefix_len(line, '\n') == line.len(),
        before(line, '\n') == line,
{
    assert forall|i: int| 0 <= i < line.len() implies line[i] != '\n' by {
        assert(line.contains(line[i]));
    }
    lemma_prefix_len_is(line, '\n', line.len() as int);
    assert(before(line, '\n') =~= line);
}

proof fn lemma_semicolons(value: Seq<char>, semicolons: Seq<char>)
    requires
        forall|i: int| 0 <= i < semicolons.len() ==> semicolons[i] == ';',
        value.len() > 0 ==> value.last() != ';',
    ensures
        without_semicolons(value + semicolons) == value,
    decreases semicolons.len(),
{
    if semicolons.len() == 0 {
        assert(value + semicolons =~= value);
    } else {
        assert((value + semicolons).drop_last() =~= value + semicolons.drop_last());
        assert((value + semicolons).last() == semicolons[semicolons.len() - 1]);
        lemma_semicolons(value, semicolons.drop_last());
    }
}

/// The name that stands behind the first `var(` of a text, up to a comma, a closing
/// bracket, white space or the end, is read first; then what stands behind it is read.
pub proof fn law_references_are_read_in_order(front: Seq<char>, name: Seq<char>, rest: Seq<char>)
    requires
        name.len() >= 2,
        name[0] == '-',
        name[1] == '-',
        forall|i: int|
            0 <= i < name.len() ==> #[trigger] name[i] != ',' && name[i] != ')' && !is_white_space(
                name[i],
            ),
        rest.len() > 0 ==> rest[0] == ',' || rest[0] == ')' || is_white_space(rest[0]),
        ({
            let css = front + seq!['v', 'a', 'r', '('] + name + rest;
            forall|at: int| 0 <= at < front.len() ==> !#[trigger] occurs_at(css, "var(--"@, at)
        }),
    ensures
        references(front + seq!['v', 'a', 'r', '('] + name + rest) == seq![name] + references(rest),
    decreases front.len(),
{
    let open = seq!['v', 'a', 'r', '('];
    let all = front + open + name + rest;
    reveal_strlit("var(--");
    if front.len() == 0 {
        assert(all.subrange(0, 6) =~= "var(--"@);
        let tail = all.skip(4);
        assert(tail =~= name + rest);
        lemma_name_of(name, rest);
        assert(tail.take(name.len() as int) =~= name);
        assert(tail.skip(name.len() as int) =~= rest);
    } else {
        assert(!occurs_at(all, "var(--"@, 0));
        let less = front.drop_first();
        let shorter = less + open + name + rest;
        assert(all.drop_first() =~= shorter);
        assert forall|at: int| 0 <= at < less.len() implies !#[trigger] occurs_at(
            shorter,
            "var(--"@,
            at,
        ) by {
            assert(!occurs_at(all, "var(--"@, at + 1));
            if at + 6 <= shorter.len() {
                assert(all.subrange(at + 1, at + 7) =~= shorter.subrange(at, at + 6));
            }
        }
        law_references_are_read_in_order(less, name, rest);
    }
}

proof fn lemma_name_of(name: Seq<char>, rest: Seq<char>)
    requires
        forall|i: int| 0 <= i < name.len() ==> !ends_name(#[trigger] name[i]),
        rest.len() > 0 ==> ends_name(rest[0]),
    ensures
        name_len(name + rest) == name.len(),
    decreases name.len(),
{
    if name.len() == 0 {
        assert(name + rest =~= rest);
    } else {
        assert(!ends_name(name[0]));
        assert((name + rest).drop_first() =~= name.drop_first() + rest);
        assert forall|i: int| 0 <= i < name.drop_first().len() implies !ends_name(
            #[trigger] name.drop_first()[i],
        ) by {
            assert(name.drop_first()[i] == name[i + 1]);
        }
        lemma_name_of(name.drop_first(), rest);
    }
}

/// A text in which `var(--` stands nowhere reads nothing.
pub proof fn law_nothing_is_read_without_var(css: Seq<char>)
    requires
        forall|at: int| 0 <= at < css.len() ==> !#[trigger] occurs_at(css, "var(--"@, at),
    ensures
        references(css) == Seq::<Seq<char>>::empty(),
    decreases css.len(),
{
    if css.len() > 0 {
        reveal_strlit("var(--");
        assert(!occurs_at(css, "var(--"@, 0));
        let rest = css.drop_first();
        assert forall|at: int| 0 <= at < rest.len() implies !#[trigger] occurs_at(
            rest,
            "var(--"@,
            at,
        ) by {
            assert(!occurs_at(css, "var(--"@, at + 1));
            if at + 6 <= rest.len() {
                assert(css.subrange(at + 1, at + 7) =~= rest.subrange(at, at + 6));
            }
        }
        law_nothing_is_read_without_var(rest);
    }
}

/// How many braces a text leaves open.
pub open spec fn open_braces(s: Seq<char>) -> int
    decreases s.len(),
{
    if s.len() == 0 {
        0
    } else {
        open_braces(s.drop_last()) + (if s.last() == '{' {
            1int
        } else {
            0
        }) - (if s.last() == '}' {
            1int
        } else {
            0
        })
    }
}

proof fn lemma_found_from(s: Seq<char>, pat: Seq<char>, from: int, at: int)
    requires
        0 <= from <= at,
        occurs_at(s, pat, at),
        forall|i: int| from <= i < at ==> !#[trigger] occurs_at(s, pat, i),
    ensures
        found_from(s, pat, from) == Some(at),
    decreases at - from,
{
    if from < at {
        assert(!occurs_at(s, pat, from));
        lemma_found_from(s, pat, from + 1, at);
    }
}

proof fn lemma_not_found_from(s: Seq<char>, pat: Seq<char>, from: int)
    requires
        0 <= from,
        forall|i: int| from <= i <= s.len() ==> !#[trigger] occurs_at(s, pat, i),
    ensures
        found_from(s, pat, from) is None,
    decreases s.len() + 1 - from,
{
    if from <= s.len() {
        assert(!occurs_at(s, pat, from));
        lemma_not_found_from(s, pat, from + 1);
    }
}

/// Reading on inside a block whose braces are matched keeps the count of those open.
proof fn lemma_closed_at(s: Seq<char>, from: int, inner: Seq<char>, n: int)
    requires
        0 <= from,
        from + inner.len() <= s.len(),
        s.subrange(from, from + inner.len()) == inner,
        forall|i: int| 0 <= i <= inner.len() ==> open_braces(#[trigger] inner.take(i)) >= 0,
        0 <= n <= inner.len(),
    ensures
        closed_at(s, from, 1) == closed_at(s, from + n, (1 + open_braces(inner.take(n))) as nat),
    decreases n,
{
    if n == 0 {
        assert(open_braces(inner.take(0)) == 0);
    } else {
        lemma_closed_at(s, from, inner, n - 1);
        assert(inner.take(n).drop_last() =~= inner.take(n - 1));
        assert(inner.take(n).last() == inner[n - 1]);
        assert(s[from + n - 1] == s.subrange(from, from + inner.len())[n - 1]);
        assert(open_braces(inner.take(n)) >= 0);
        assert(open_braces(inner.take(n - 1)) >= 0);
    }
}

/// The block of a selector is what stands between the first brace from there on and the
/// one that matches it, however deep the braces between them nest.
pub proof fn law_block_of_a_selector(
    front: Seq<char>,
    head: Seq<char>,
    inner: Seq<char>,
    rest: Seq<char>,
    selector: Seq<char>,
)
    requires
        ({
            let css = front + head + seq!['{'] + inner + seq!['}'] + rest;
            &&& occurs_at(css, selector, front.len() as int)
            &&& forall|i: int| 0 <= i < front.len() ==> !#[trigger] occurs_at(css, selector, i)
        }),
        !head.contains('{'),
        forall|i: int| 0 <= i <= inner.len() ==> open_braces(#[trigger] inner.take(i)) >= 0,
        open_braces(inner) == 0,
    ensures
        block_of(front + head + seq!['{'] + inner + seq!['}'] + rest, selector) == Some(inner),
{
    let css = front + head + seq!['{'] + inner + seq!['}'] + rest;
    let start = front.len() as int;
    let open = start + head.len();
    lemma_found_from(css, selector, 0, start);
    let tail = css.skip(start);
    assert forall|i: int| 0 <= i < head.len() implies tail[i] != '{' by {
        assert(head.contains(head[i]));
        assert(tail[i] == head[i]);
    }
    assert(tail[head.len() as int] == '{');
    lemma_prefix_len_is(tail, '{', head.len() as int);
    assert(css.subrange(open + 1, open + 1 + inner.len()) =~= inner);
    lemma_closed_at(css, open + 1, inner, inner.len() as int);
    assert(inner.take(inner.len() as int) =~= inner);
    let close = open + 1 + inner.len();
    assert(css[close] == '}');
    assert(closed_at(css, close, 1) == Some(close));
}

/// There is no block where the selector stands nowhere, where no brace follows it, or
/// where its brace is never matched.
pub proof fn law_no_other_block(
    front: Seq<char>,
    head: Seq<char>,
    inner: Seq<char>,
    selector: Seq<char>,
)
    requires
        !head.contains('{'),
        forall|i: int| 0 <= i <= inner.len() ==> open_braces(#[trigger] inner.take(i)) >= 0,
    ensures
        (forall|i: int| 0 <= i <= front.len() ==> !#[trigger] occurs_at(front, selector, i))
            ==> block_of(front, selector) is None,
        ({
            let css = front + head;
            occurs_at(css, selector, front.len() as int) && (forall|i: int|
                0 <= i < front.len() ==> !#[trigger] occurs_at(css, selector, i)) ==> block_of(
                css,
                selector,
            ) is None
        }),
        ({
            let css = front + head + seq!['{'] + inner;
            occurs_at(css, selector, front.len() as int) && (forall|i: int|
                0 <= i < front.len() ==> !#[trigger] occurs_at(css, selector, i)) ==> block_of(
                css,
                selector,
            ) is None
        }),
{
    let start = front.len() as int;
    if forall|i: int| 0 <= i <= front.len() ==> !#[trigger] occurs_at(front, selector, i) {
        lemma_not_found_from(front, selector, 0);
    }
    assert forall|i: int| 0 <= i < head.len() implies head[i] != '{' by {
        assert(head.contains(head[i]));
    }
    let bare = front + head;
    if occurs_at(bare, selector, start) && (forall|i: int|
        0 <= i < front.len() ==> !#[trigger] occurs_at(bare, selector, i)) {
        lemma_found_from(bare, selector, 0, start);
        assert(bare.skip(start) =~= head);
        lemma_prefix_len_is(head, '{', head.len() as int);
    }
    let css = front + head + seq!['{'] + inner;
    if occurs_at(css, selector, start) && (forall|i: int|
        0 <= i < front.len() ==> !#[trigger] occurs_at(css, selector, i)) {
        let open = start + head.len();
        lemma_found_from(css, selector, 0, start);
        let tail = css.skip(start);
        assert forall|i: int| 0 <= i < head.len() implies tail[i] != '{' by {
            assert(tail[i] == head[i]);
        }
        assert(tail[head.len() as int] == '{');
        lemma_prefix_len_is(tail, '{', head.len() as int);
        assert(css.subrange(open + 1, open + 1 + inner.len()) =~= inner);
        lemma_closed_at(css, open + 1, inner, inner.len() as int);
    }
}

/// A stylesheet is closed if and only if each property that it reads is defined on some
/// line of it.
pub proof fn law_closed_means_defined(css: Seq<char>)
    ensures
        is_closed(css) <==> forall|property: Seq<char>| #[trigger]
            references(css).contains(property) ==> definitions(css).contains(property),
{
    if is_closed(css) {
        assert forall|property: Seq<char>| #[trigger]
            references(css).contains(property) implies definitions(css).contains(property) by {
            let i = choose|i: int| 0 <= i < references(css).len() && references(css)[i] == property;
            assert(definitions(css).contains(references(css)[i]));
        }
    } else {
        let i = choose|i: int|
            0 <= i < references(css).len() && !definitions(css).contains(
                #[trigger] references(css)[i],
            );
        assert(references(css).contains(references(css)[i]));
    }
}

} // verus!
