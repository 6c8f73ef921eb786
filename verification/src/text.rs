//! Text as a sequence of characters: comparison, trimming, searching, building.
use vstd::prelude::*;
use vstd::string::*;
use vstd::utf8::*;

verus! {

/// `String::push`: the given character is appended to the string.
pub assume_specification[ String::push ](s: &mut String, c: char)
    ensures
        final(s)@ == old(s)@.push(c),
;

/// The Unicode `White_Space` characters.
pub open spec fn is_white_space(c: char) -> bool {
    ||| '\u{9}' <= c <= '\u{d}'
    ||| c == ' '
    ||| c == '\u{85}'
    ||| c == '\u{a0}'
    ||| c == '\u{1680}'
    ||| '\u{2000}' <= c <= '\u{200a}'
    ||| c == '\u{2028}'
    ||| c == '\u{2029}'
    ||| c == '\u{202f}'
    ||| c == '\u{205f}'
    ||| c == '\u{3000}'
}

/// `s` without the white space at its front.
pub open spec fn trim_start(s: Seq<char>) -> Seq<char>
    decreases s.len(),
{
    if s.len() > 0 && is_white_space(s[0]) {
        trim_start(s.drop_first())
    } else {
        s
    }
}

/// `s` without the white space at its back.
pub open spec fn trim_end(s: Seq<char>) -> Seq<char>
    decreases s.len(),
{
    if s.len() > 0 && is_white_space(s.last()) {
        trim_end(s.drop_last())
    } else {
        s
    }
}

/// `s` without the white space at either end.
pub open spec fn trimmed(s: Seq<char>) -> Seq<char> {
    trim_end(trim_start(s))
}

/// How many characters of `s` stand before the first `c`; all of them where
/// `s` holds no `c`.
pub open spec fn prefix_len(s: Seq<char>, c: char) -> nat
    decreases s.len(),
{
    if s.len() == 0 || s[0] == c {
        0
    } else {
        1 + prefix_len(s.drop_first(), c)
    }
}

/// What stands before the first `c`, or all of `s`.
pub open spec fn before(s: Seq<char>, c: char) -> Seq<char> {
    s.take(prefix_len(s, c) as int)
}

/// What stands after the first `c`, or nothing.
pub open spec fn after(s: Seq<char>, c: char) -> Seq<char> {
    if prefix_len(s, c) < s.len() {
        s.skip(prefix_len(s, c) as int + 1)
    } else {
        Seq::empty()
    }
}

/// The pieces of `s` between the `c`s: one more than there are `c`s.
pub open spec fn split(s: Seq<char>, c: char) -> Seq<Seq<char>>
    decreases s.len(),
{
    if prefix_len(s, c) < s.len() {
        seq![before(s, c)] + split(after(s, c), c)
    } else {
        seq![s]
    }
}

/// `pat` stands in `s` from index `at` on.
pub open spec fn occurs_at(s: Seq<char>, pat: Seq<char>, at: int) -> bool {
    &&& 0 <= at
    &&& at + pat.len() <= s.len()
    &&& s.subrange(at, at + pat.len()) == pat
}

/// `pat` stands somewhere in `s`.
pub open spec fn contains_text(s: Seq<char>, pat: Seq<char>) -> bool {
    exists|at: int| occurs_at(s, pat, at)
}

/// `s` begins with `pat`.
pub open spec fn begins_with(s: Seq<char>, pat: Seq<char>) -> bool {
    occurs_at(s, pat, 0)
}

/// The texts of `parts`, one after another.
pub open spec fn joined(parts: Seq<Seq<char>>) -> Seq<char>
    decreases parts.len(),
{
    if parts.len() == 0 {
        Seq::empty()
    } else {
        joined(parts.drop_last()) + parts.last()
    }
}

/// The bounds of the first occurrence that `prefix_len` counts up to.
pub proof fn lemma_prefix_len(s: Seq<char>, c: char)
    ensures
        prefix_len(s, c) <= s.len(),
        prefix_len(s, c) < s.len() ==> s[prefix_len(s, c) as int] == c,
        forall|i: int| 0 <= i < prefix_len(s, c) ==> s[i] != c,
    decreases s.len(),
{
    if s.len() > 0 && s[0] != c {
        let rest = s.drop_first();
        lemma_prefix_len(rest, c);
        assert forall|i: int| 0 <= i < prefix_len(s, c) implies s[i] != c by {
            if i > 0 {
                assert(rest[i - 1] == s[i]);
            }
        }
    }
}

/// The first occurrence is where a `c` stands with none before it.
pub proof fn lemma_prefix_len_is(s: Seq<char>, c: char, at: int)
    requires
        0 <= at <= s.len(),
        at < s.len() ==> s[at] == c,
        forall|i: int| 0 <= i < at ==> s[i] != c,
    ensures
        prefix_len(s, c) == at,
{
    lemma_prefix_len(s, c);
    if prefix_len(s, c) < at {
        assert(s[prefix_len(s, c) as int] != c);
    } else if at < prefix_len(s, c) {
        assert(s[at] != c);
    }
}

/// A text with no white space at either end stays as it is.
pub proof fn lemma_trimmed_of(s: Seq<char>)
    requires
        s.len() > 0 ==> !is_white_space(s[0]) && !is_white_space(s.last()),
    ensures
        trimmed(s) == s,
{
}

/// What stays of a text has no white space at its front, and is its back.
pub proof fn lemma_trim_start(s: Seq<char>)
    ensures
        trim_start(s).len() > 0 ==> !is_white_space(trim_start(s)[0]),
        trim_start(s).len() <= s.len(),
        trim_start(s) == s.skip(s.len() - trim_start(s).len()),
    decreases s.len(),
{
    if s.len() > 0 && is_white_space(s[0]) {
        let rest = s.drop_first();
        lemma_trim_start(rest);
        assert(rest.skip(rest.len() - trim_start(s).len()) == s.skip(
            s.len() - trim_start(s).len(),
        ));
    } else {
        assert(s.skip(0) == s);
    }
}

/// What stays of a text has no white space at its back, and is its front.
pub proof fn lemma_trim_end(s: Seq<char>)
    ensures
        trim_end(s).len() > 0 ==> !is_white_space(trim_end(s).last()),
        trim_end(s).len() <= s.len(),
        trim_end(s) == s.take(trim_end(s).len() as int),
    decreases s.len(),
{
    if s.len() > 0 && is_white_space(s.last()) {
        lemma_trim_end(s.drop_last());
        assert(s.drop_last().take(trim_end(s).len() as int) == s.take(trim_end(s).len() as int));
    } else {
        assert(s.take(s.len() as int) == s);
    }
}

/// Trimming leaves no white space at either end, so trimming again does nothing.
pub proof fn lemma_trimmed(s: Seq<char>)
    ensures
        trimmed(s).len() > 0 ==> !is_white_space(trimmed(s)[0]) && !is_white_space(
            trimmed(s).last(),
        ),
        trimmed(trimmed(s)) == trimmed(s),
        forall|i: int| 0 <= i < trimmed(s).len() ==> s.contains(#[trigger] trimmed(s)[i]),
{
    lemma_trim_start(s);
    lemma_trim_end(trim_start(s));
    lemma_trimmed_of(trimmed(s));
    assert forall|i: int| 0 <= i < trimmed(s).len() implies s.contains(
        #[trigger] trimmed(s)[i],
    ) by {
        assert(s[s.len() - trim_start(s).len() + i] == trimmed(s)[i]);
    }
}

/// `s` holds white space only.
pub open spec fn is_blank(s: Seq<char>) -> bool {
    forall|i: int| 0 <= i < s.len() ==> is_white_space(#[trigger] s[i])
}

proof fn lemma_trim_start_of(l: Seq<char>, t: Seq<char>)
    requires
        is_blank(l),
        t.len() > 0 ==> !is_white_space(t[0]),
    ensures
        trim_start(l + t) == t,
    decreases l.len(),
{
    if l.len() == 0 {
        assert(l + t =~= t);
    } else {
        assert(is_white_space(l[0]));
        assert((l + t)[0] == l[0]);
        assert((l + t).drop_first() =~= l.drop_first() + t);
        assert forall|i: int| 0 <= i < l.drop_first().len() implies is_white_space(
            #[trigger] l.drop_first()[i],
        ) by {
            assert(l.drop_first()[i] == l[i + 1]);
        }
        lemma_trim_start_of(l.drop_first(), t);
    }
}

proof fn lemma_trim_end_of(t: Seq<char>, r: Seq<char>)
    requires
        is_blank(r),
        t.len() > 0 ==> !is_white_space(t.last()),
    ensures
        trim_end(t + r) == t,
    decreases r.len(),
{
    if r.len() == 0 {
        assert(t + r =~= t);
    } else {
        assert(is_white_space(r[r.len() - 1]));
        assert((t + r).last() == r.last());
        assert((t + r).drop_last() =~= t + r.drop_last());
        assert forall|i: int| 0 <= i < r.drop_last().len() implies is_white_space(
            #[trigger] r.drop_last()[i],
        ) by {
            assert(r.drop_last()[i] == r[i]);
        }
        lemma_trim_end_of(t, r.drop_last());
    }
}

/// Trimming takes the white space at both ends away and nothing else: a text that
/// neither begins nor ends with any comes back from between whatever white space
/// stands round it.
pub proof fn law_trimming(l: Seq<char>, t: Seq<char>, r: Seq<char>)
    requires
        is_blank(l),
        is_blank(r),
        t.len() > 0 ==> !is_white_space(t[0]) && !is_white_space(t.last()),
    ensures
        trimmed(l + t + r) == t,
        trimmed(t) == t,
{
    lemma_trimmed_of(t);
    if t.len() == 0 {
        assert(l + t + r =~= (l + r) + t);
        assert forall|i: int| 0 <= i < (l + r).len() implies is_white_space(
            #[trigger] (l + r)[i],
        ) by {
            if i < l.len() {
                assert(is_white_space(l[i]));
            } else {
                assert(is_white_space(r[i - l.len()]));
            }
        }
        lemma_trim_start_of(l + r, t);
    } else {
        assert(l + t + r =~= l + (t + r));
        assert((t + r)[0] == t[0]);
        lemma_trim_start_of(l, t + r);
        lemma_trim_end_of(t, r);
    }
}

/// What trimming takes away is white space: every text is what stays of it, between
/// white space.
pub proof fn law_trimming_leaves_the_middle(s: Seq<char>) -> (ends: (Seq<char>, Seq<char>))
    ensures
        is_blank(ends.0),
        is_blank(ends.1),
        s == ends.0 + trimmed(s) + ends.1,
        trimmed(s).len() > 0 ==> !is_white_space(trimmed(s)[0]) && !is_white_space(
            trimmed(s).last(),
        ),
{
    lemma_trimmed(s);
    lemma_trim_start(s);
    lemma_trim_end(trim_start(s));
    let l = s.take(s.len() - trim_start(s).len());
    let r = trim_start(s).skip(trimmed(s).len() as int);
    lemma_trim_start_blank(s);
    lemma_trim_end_blank(trim_start(s));
    assert(s =~= l + trimmed(s) + r);
    (l, r)
}

proof fn lemma_trim_start_blank(s: Seq<char>)
    ensures
        is_blank(s.take(s.len() - trim_start(s).len())),
    decreases s.len(),
{
    lemma_trim_start(s);
    if s.len() > 0 && is_white_space(s[0]) {
        let rest = s.drop_first();
        lemma_trim_start(rest);
        lemma_trim_start_blank(rest);
        let cut = s.take(s.len() - trim_start(s).len());
        let shorter = rest.take(rest.len() - trim_start(rest).len());
        assert forall|i: int| 0 <= i < cut.len() implies is_white_space(#[trigger] cut[i]) by {
            if i > 0 {
                assert(shorter[i - 1] == cut[i]);
            }
        }
    }
}

proof fn lemma_trim_end_blank(s: Seq<char>)
    ensures
        is_blank(s.skip(trim_end(s).len() as int)),
    decreases s.len(),
{
    lemma_trim_end(s);
    if s.len() > 0 && is_white_space(s.last()) {
        let rest = s.drop_last();
        lemma_trim_end(rest);
        lemma_trim_end_blank(rest);
        let cut = s.skip(trim_end(s).len() as int);
        let shorter = rest.skip(trim_end(rest).len() as int);
        assert forall|i: int| 0 <= i < cut.len() implies is_white_space(#[trigger] cut[i]) by {
            if i < shorter.len() {
                assert(shorter[i] == cut[i]);
            }
        }
    }
}

/// Two texts with the same UTF-8 bytes are the same text.
pub proof fn lemma_utf8_injective(a: Seq<char>, b: Seq<char>)
    requires
        encode_utf8(a) == encode_utf8(b),
    ensures
        a == b,
{
    encode_utf8_decode_utf8(a);
    encode_utf8_decode_utf8(b);
}

/// Whether `c` is a Unicode `White_Space` character.
pub fn white_space(c: char) -> (white: bool)
    ensures
        white == is_white_space(c),
{
    ('\u{9}' <= c && c <= '\u{d}') || c == ' ' || c == '\u{85}' || c == '\u{a0}' || c == '\u{1680}'
        || ('\u{2000}' <= c && c <= '\u{200a}') || c == '\u{2028}' || c == '\u{2029}'
        || c == '\u{202f}' || c == '\u{205f}' || c == '\u{3000}'
}

/// The characters of `text`.
pub fn chars_of(text: &str) -> (chars: Vec<char>)
    ensures
        chars@ == text@,
{
    let mut chars: Vec<char> = Vec::new();
    for c in it: text.chars()
        invariant
            chars@ == text@.take(it.index() as int),
            it.seq() == text@,
    {
        proof {
            assert(text@.take(it.index() as int + 1) == text@.take(it.index() as int).push(c));
        }
        chars.push(c);
    }
    proof {
        assert(text@.take(text@.len() as int) == text@);
    }
    chars
}

/// The string of the characters from `from` up to `to`.
pub fn string_of(chars: &Vec<char>, from: usize, to: usize) -> (text: String)
    requires
        from <= to <= chars@.len(),
    ensures
        text@ == chars@.subrange(from as int, to as int),
{
    let mut text = String::new();
    let mut i: usize = from;
    while i < to
        invariant
            from <= i <= to <= chars@.len(),
            text@ == chars@.subrange(from as int, i as int),
        decreases to - i,
    {
        text.push(chars[i]);
        i += 1;
        proof {
            assert(chars@.subrange(from as int, i as int) == chars@.subrange(
                from as int,
                i - 1,
            ).push(chars@[i - 1]));
        }
    }
    text
}

/// Whether two texts are equal.
pub fn same_text(a: &str, b: &str) -> (same: bool)
    ensures
        same == (a@ == b@),
{
    let left = a.as_bytes();
    let right = b.as_bytes();
    if left.len() != right.len() {
        return false;
    }
    let mut i: usize = 0;
    while i < left.len()
        invariant
            i <= left@.len(),
            left@.len() == right@.len(),
            left@ == encode_utf8(a@),
            right@ == encode_utf8(b@),
            forall|j: int| 0 <= j < i ==> left@[j] == right@[j],
        decreases left@.len() - i,
    {
        if left[i] != right[i] {
            return false;
        }
        i += 1;
    }
    proof {
        assert(left@ =~= right@);
        lemma_utf8_injective(a@, b@);
    }
    true
}

/// `text` without the white space at either end.
pub fn trim(text: &str) -> (inner: &str)
    ensures
        inner@ == trimmed(text@),
{
    let chars = chars_of(text);
    let mut lo: usize = 0;
    proof {
        assert(chars@.subrange(0, chars@.len() as int) == chars@);
    }
    while lo < chars.len() && white_space(chars[lo])
        invariant
            lo <= chars@.len(),
            trim_start(chars@.subrange(lo as int, chars@.len() as int)) == trim_start(chars@),
        decreases chars@.len() - lo,
    {
        proof {
            let rest = chars@.subrange(lo as int, chars@.len() as int);
            assert(rest.drop_first() == chars@.subrange(lo + 1, chars@.len() as int));
        }
        lo += 1;
    }
    let mut hi: usize = chars.len();
    let ghost front = chars@.subrange(lo as int, chars@.len() as int);
    proof {
        assert(trim_start(front) == front);
    }
    while lo < hi && white_space(chars[hi - 1])
        invariant
            lo <= hi <= chars@.len(),
            front == chars@.subrange(lo as int, chars@.len() as int),
            trim_end(chars@.subrange(lo as int, hi as int)) == trim_end(front),
        decreases hi,
    {
        proof {
            let rest = chars@.subrange(lo as int, hi as int);
            assert(rest.drop_last() == chars@.subrange(lo as int, hi - 1));
        }
        hi -= 1;
    }
    proof {
        let rest = chars@.subrange(lo as int, hi as int);
        assert(trim_end(rest) == rest);
    }
    text.substring_char(lo, hi)
}

/// The index of the first `c` at or after `from`, or `to` where there is none
/// before it.
pub fn index_of(chars: &Vec<char>, from: usize, to: usize, c: char) -> (at: usize)
    requires
        from <= to <= chars@.len(),
    ensures
        from <= at <= to,
        at - from == prefix_len(chars@.subrange(from as int, to as int), c),
{
    let ghost part = chars@.subrange(from as int, to as int);
    let mut at: usize = from;
    while at < to && chars[at] != c
        invariant
            from <= at <= to <= chars@.len(),
            part == chars@.subrange(from as int, to as int),
            forall|i: int| 0 <= i < at - from ==> part[i] != c,
        decreases to - at,
    {
        at += 1;
    }
    proof {
        lemma_prefix_len_is(part, c, at - from);
    }
    at
}

/// Whether `pat` stands in `chars` from `at` on.
pub fn stands_at(chars: &Vec<char>, pat: &Vec<char>, at: usize) -> (found: bool)
    ensures
        found == occurs_at(chars@, pat@, at as int),
{
    if at > chars.len() || pat.len() > chars.len() - at {
        return false;
    }
    let len: usize = chars.len();
    let mut i: usize = 0;
    while i < pat.len()
        invariant
            i <= pat@.len(),
            len == chars@.len(),
            at + pat@.len() <= len,
            forall|j: int| 0 <= j < i ==> chars@[at + j] == pat@[j],
        decreases pat@.len() - i,
    {
        if chars[at + i] != pat[i] {
            proof {
                let part = chars@.subrange(at as int, at + pat@.len());
                assert(part[i as int] != pat@[i as int]);
            }
            return false;
        }
        i += 1;
    }
    proof {
        assert(chars@.subrange(at as int, at + pat@.len()) =~= pat@);
    }
    true
}

/// Whether `text` begins with `pat`.
pub fn starts_with(text: &str, pat: &str) -> (found: bool)
    ensures
        found == begins_with(text@, pat@),
{
    stands_at(&chars_of(text), &chars_of(pat), 0)
}

/// Whether `pat` stands somewhere in `text`.
pub fn contains(text: &str, pat: &str) -> (found: bool)
    ensures
        found == contains_text(text@, pat@),
{
    let chars = chars_of(text);
    let needle = chars_of(pat);
    let mut at: usize = 0;
    while at < chars.len()
        invariant
            at <= chars@.len(),
            chars@ == text@,
            needle@ == pat@,
            forall|i: int| 0 <= i < at ==> !occurs_at(chars@, needle@, i),
        decreases chars@.len() - at,
    {
        if stands_at(&chars, &needle, at) {
            return true;
        }
        at += 1;
    }
    stands_at(&chars, &needle, at)
}

/// The texts of `parts`, one after another.
pub fn join(parts: &Vec<String>) -> (text: String)
    ensures
        text@ == joined(parts@.map_values(|part: String| part@)),
{
    let ghost views = parts@.map_values(|part: String| part@);
    let mut text = String::new();
    let mut i: usize = 0;
    while i < parts.len()
        invariant
            i <= parts@.len(),
            views == parts@.map_values(|part: String| part@),
            text@ == joined(views.take(i as int)),
        decreases parts@.len() - i,
    {
        text.append(parts[i].as_str());
        i += 1;
        proof {
            assert(views.take(i as int).drop_last() == views.take(i - 1));
        }
    }
    proof {
        assert(views.take(parts@.len() as int) == views);
    }
    text
}

} // verus!
