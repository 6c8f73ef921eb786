//! The tenant hint that a request's host name carries.
use vstd::prelude::*;
use vstd::string::*;
use crate::decimal::{all_digits, decimal_value, digits_only, parse_digits};
use crate::digits::{is_run, lemma_run, ten_to, worth};
use crate::text::{
    after, before, begins_with, chars_of, index_of, is_blank, is_white_space, law_trimming,
    lemma_prefix_len, lemma_prefix_len_is, lemma_trimmed, split, trim, trimmed,
};

verus! {

/// One part of an IPv4 address: one to three digits, without a leading zero, up
/// to 255.
pub open spec fn is_octet(s: Seq<char>) -> bool {
    &&& 1 <= s.len() <= 3
    &&& all_digits(s)
    &&& s.len() > 1 ==> s[0] != '0'
    &&& decimal_value(s) <= 255
}

/// An IPv4 address: four octets with points between them.
pub open spec fn is_ipv4(s: Seq<char>) -> bool {
    let parts = split(s, '.');
    &&& parts.len() == 4
    &&& forall|i: int| 0 <= i < 4 ==> is_octet(#[trigger] parts[i])
}

/// The host name of a `Host` header: what stands before the port, without white
/// space round it.
pub open spec fn host_name(host: Seq<char>) -> Seq<char> {
    trimmed(before(host, ':'))
}

/// The tenant that a `Host` header hints at: the first label of a host name
/// that is no IP address and has three labels or more. (A host name holds no
/// colon, so it is no IPv6 address.)
pub open spec fn tenant_hint(host: Seq<char>) -> Option<Seq<char>> {
    let name = host_name(host);
    let labels = split(name, '.');
    if name.len() > 0 && !is_ipv4(name) && labels.len() >= 3 && labels[0].len() > 0 {
        Some(labels[0])
    } else {
        None
    }
}

fn octet(chars: &Vec<char>, from: usize, to: usize) -> (yes: bool)
    requires
        from <= to <= chars@.len(),
    ensures
        yes == is_octet(chars@.subrange(from as int, to as int)),
{
    let ghost part = chars@.subrange(from as int, to as int);
    if to - from < 1 || to - from > 3 || !digits_only(chars, from, to) {
        return false;
    }
    proof {
        assert(part[0] == chars@[from as int]);
    }
    if to - from > 1 && chars[from] == '0' {
        return false;
    }
    match parse_digits(chars, from, to) {
        Some(n) => n <= 255,
        None => false,
    }
}

/// The first piece ends at the first `c`, and the pieces behind it are those of
/// what stands behind that `c`.
proof fn lemma_split_step(s: Seq<char>, c: char)
    ensures
        split(s, c).len() >= 1,
        split(s, c)[0] == before(s, c),
        before(s, c).len() < s.len() ==> split(s, c) == seq![before(s, c)] + split(after(s, c), c),
        before(s, c).len() == s.len() ==> split(s, c) == seq![s],
{
    lemma_prefix_len(s, c);
    if before(s, c).len() == s.len() {
        assert(before(s, c) == s);
    }
}

/// Whether `chars` are an IPv4 address.
fn ipv4(chars: &Vec<char>) -> (yes: bool)
    ensures
        yes == is_ipv4(chars@),
{
    let len: usize = chars.len();
    let mut at: usize = 0;
    let mut seen: usize = 0;
    let mut valid = true;
    let ghost parts = split(chars@, '.');
    proof {
        assert(chars@.subrange(0, len as int) == chars@);
        assert(parts.skip(0) == parts);
        lemma_split_step(chars@, '.');
    }
    loop
        invariant_except_break
            valid == (forall|i: int| 0 <= i < seen ==> is_octet(#[trigger] parts[i])),
        invariant
            at <= len,
            len == chars@.len(),
            seen <= at,
            parts == split(chars@, '.'),
            seen < parts.len(),
            parts.skip(seen as int) == split(chars@.subrange(at as int, len as int), '.'),
        ensures
            seen + 1 == parts.len(),
            valid == (forall|i: int| 0 <= i <= seen ==> is_octet(#[trigger] parts[i])),
        decreases len - at,
    {
        let end: usize = index_of(chars, at, len, '.');
        let ghost rest = chars@.subrange(at as int, len as int);
        proof {
            lemma_split_step(rest, '.');
            assert(before(rest, '.') == chars@.subrange(at as int, end as int));
            assert(parts[seen as int] == parts.skip(seen as int)[0]);
        }
        let good = octet(chars, at, end);
        valid = valid && good;
        if end == len {
            break;
        }
        proof {
            assert(after(rest, '.') == chars@.subrange(end + 1, len as int));
            assert(parts.skip(seen + 1) == parts.skip(seen as int).skip(1));
            assert((seq![before(rest, '.')] + split(after(rest, '.'), '.')).skip(1) == split(
                after(rest, '.'),
                '.',
            ));
            lemma_split_step(after(rest, '.'), '.');
        }
        seen += 1;
        at = end + 1;
    }
    valid && seen == 3
}

/// The tenant that a `Host` header hints at, which comes only from a real
/// subdomain: not from an address, nor from a name of one or two labels.
pub fn tenant_from_host(host: &str) -> (tenant: Option<&str>)
    ensures
        match tenant {
            Some(label) => tenant_hint(host@) == Some(label@),
            None => tenant_hint(host@) is None,
        },
{
    let all = chars_of(host);
    let colon: usize = index_of(&all, 0, all.len(), ':');
    proof {
        assert(all@.subrange(0, all@.len() as int) == host@);
        assert(host@.subrange(0, colon as int) == before(host@, ':'));
    }
    let name = trim(host.substring_char(0, colon));
    let chars = chars_of(name);
    let len: usize = chars.len();
    if len == 0 || ipv4(&chars) {
        return None;
    }
    let first: usize = index_of(&chars, 0, len, '.');
    proof {
        assert(chars@.subrange(0, len as int) == name@);
        lemma_split_step(name@, '.');
        assert(before(name@, '.') == name@.subrange(0, first as int));
    }
    if first == 0 || first == len {
        return None;
    }
    let second: usize = index_of(&chars, first + 1, len, '.');
    proof {
        let rest = after(name@, '.');
        assert(rest == chars@.subrange(first + 1, len as int));
        lemma_split_step(rest, '.');
        if second < len {
            lemma_split_step(after(rest, '.'), '.');
        }
    }
    if second == len {
        return None;
    }
    Some(name.substring_char(0, first))
}

/// A hint is one label: not empty, without a point or a colon, and what the
/// host name begins with, up to its first point.
pub proof fn law_hint_is_one_label(host: Seq<char>)
    requires
        tenant_hint(host) is Some,
    ensures
        tenant_hint(host)->0.len() > 0,
        !tenant_hint(host)->0.contains('.'),
        !tenant_hint(host)->0.contains(':'),
        begins_with(host_name(host), tenant_hint(host)->0 + seq!['.']),
{
    let name = host_name(host);
    let label = before(name, '.');
    lemma_prefix_len(host, ':');
    lemma_trimmed(before(host, ':'));
    lemma_prefix_len(name, '.');
    lemma_split_step(name, '.');
    assert(label.len() < name.len());
    assert forall|i: int| 0 <= i < label.len() implies label[i] != '.' && label[i] != ':' by {
        assert(label[i] == name[i]);
        assert(before(host, ':').contains(name[i]));
    }
    assert(name.subrange(0, label.len() as int + 1) == label + seq!['.']);
}

/// The port plays no part.
pub proof fn law_port_does_not_matter(name: Seq<char>, port: Seq<char>)
    requires
        !name.contains(':'),
    ensures
        tenant_hint(name + seq![':'] + port) == tenant_hint(name),
{
    let host = name + seq![':'] + port;
    assert forall|i: int| 0 <= i < name.len() implies host[i] != ':' && name[i] != ':' by {
        assert(host[i] == name[i]);
        assert(name.contains(name[i]));
    }
    lemma_prefix_len_is(host, ':', name.len() as int);
    lemma_prefix_len_is(name, ':', name.len() as int);
    assert(before(host, ':') == name);
    assert(before(name, ':') == name);
}

/// No tenant is invented from an address, nor from a name of fewer than three
/// labels.
pub proof fn law_only_a_subdomain_hints(host: Seq<char>)
    requires
        is_ipv4(host_name(host)) || split(host_name(host), '.').len() < 3,
    ensures
        tenant_hint(host) is None,
{
}

/// A number of 0 to 255, written without noughts in front.
pub open spec fn is_byte(s: Seq<char>) -> bool {
    &&& is_run(s)
    &&& s.len() > 0
    &&& s.len() > 1 ==> s[0] != '0'
    &&& worth(s) <= 255
}

/// Four such numbers with points between them.
pub open spec fn is_quad(s: Seq<char>) -> bool {
    exists|a: Seq<char>, b: Seq<char>, c: Seq<char>, d: Seq<char>| #[trigger]
        is_quad_of(s, a, b, c, d)
}

/// These four numbers with points between them.
pub open spec fn is_quad_of(
    s: Seq<char>,
    a: Seq<char>,
    b: Seq<char>,
    c: Seq<char>,
    d: Seq<char>,
) -> bool {
    &&& is_byte(a) && is_byte(b) && is_byte(c) && is_byte(d)
    &&& s == a + seq!['.'] + b + seq!['.'] + c + seq!['.'] + d
}

/// A run that begins with no nought is worth at least as much as its length says.
proof fn lemma_worth_of_length(s: Seq<char>)
    requires
        is_run(s),
        s.len() > 0,
        s[0] != '0',
    ensures
        worth(s) >= ten_to((s.len() - 1) as nat),
    decreases s.len(),
{
    assert('0' <= s[s.len() - 1] <= '9');
    if s.len() == 1 {
        reveal_with_fuel(worth, 2);
    } else {
        let front = s.drop_last();
        assert forall|i: int| 0 <= i < front.len() implies '0' <= #[trigger] front[i] <= '9' by {
            assert(front[i] == s[i]);
        }
        lemma_worth_of_length(front);
    }
}

proof fn lemma_byte(s: Seq<char>)
    ensures
        is_byte(s) <==> is_octet(s),
{
    lemma_run(s);
    if is_byte(s) && s.len() > 3 {
        lemma_worth_of_length(s);
        lemma_ten_to_grows(3, (s.len() - 1) as nat);
        reveal_with_fuel(ten_to, 4);
    }
}

proof fn lemma_ten_to_grows(a: nat, b: nat)
    requires
        a <= b,
    ensures
        ten_to(a) <= ten_to(b),
    decreases b - a,
{
    if a < b {
        lemma_ten_to_grows(a, (b - 1) as nat);
        crate::digits::lemma_ten_to((b - 1) as nat);
    }
}

/// What splitting gives of a piece without the separator, and the rest behind one.
proof fn lemma_split_front(piece: Seq<char>, c: char, rest: Seq<char>)
    requires
        forall|i: int| 0 <= i < piece.len() ==> piece[i] != c,
    ensures
        split(piece, c) == seq![piece],
        split(piece + seq![c] + rest, c) == seq![piece] + split(rest, c),
{
    let s = piece + seq![c] + rest;
    lemma_prefix_len_is(piece, c, piece.len() as int);
    assert forall|i: int| 0 <= i < piece.len() implies s[i] != c by {
        assert(s[i] == piece[i]);
    }
    lemma_prefix_len_is(s, c, piece.len() as int);
    assert(before(s, c) =~= piece);
    assert(after(s, c) =~= rest);
}

proof fn lemma_no_point(s: Seq<char>)
    requires
        is_run(s),
    ensures
        forall|i: int| 0 <= i < s.len() ==> s[i] != '.',
{
    assert forall|i: int| 0 <= i < s.len() implies s[i] != '.' by {
        assert('0' <= s[i] <= '9');
    }
}

proof fn lemma_quad_is_address(s: Seq<char>, a: Seq<char>, b: Seq<char>, c: Seq<char>, d: Seq<char>)
    requires
        is_quad_of(s, a, b, c, d),
    ensures
        is_ipv4(s),
{
    lemma_byte(a);
    lemma_byte(b);
    lemma_byte(c);
    lemma_byte(d);
    lemma_no_point(a);
    lemma_no_point(b);
    lemma_no_point(c);
    lemma_no_point(d);
    let p = seq!['.'];
    let s3 = d;
    let s2 = c + p + s3;
    let s1 = b + p + s2;
    assert(s =~= a + p + s1);
    lemma_split_front(a, '.', s1);
    lemma_split_front(b, '.', s2);
    lemma_split_front(c, '.', s3);
    lemma_split_front(d, '.', Seq::empty());
    let parts = split(s, '.');
    assert(parts == seq![a] + (seq![b] + (seq![c] + seq![d])));
    assert(parts.len() == 4);
    assert(parts[0] == a && parts[1] == b && parts[2] == c && parts[3] == d);
    assert forall|i: int| 0 <= i < 4 implies is_octet(#[trigger] parts[i]) by {
        assert(i == 0 || i == 1 || i == 2 || i == 3);
    }
}

/// What stands behind the first piece has the other pieces.
proof fn lemma_behind(s: Seq<char>, c: char)
    requires
        split(s, c).len() > 1,
    ensures
        split(after(s, c), c).len() == split(s, c).len() - 1,
        forall|i: int|
            0 <= i < split(s, c).len() - 1 ==> #[trigger] split(after(s, c), c)[i] == split(s, c)[i
                + 1],
        s == split(s, c)[0] + seq![c] + after(s, c),
{
    lemma_unsplit(s, c);
}

/// Four pieces, put together again from the back.
proof fn lemma_put_together(a: Seq<char>, b: Seq<char>, c: Seq<char>, d: Seq<char>)
    ensures
        a + seq!['.'] + (b + seq!['.'] + (c + seq!['.'] + d)) == a + seq!['.'] + b + seq!['.'] + c
            + seq!['.'] + d,
{
    let p = seq!['.'];
    assert(a + p + (b + p + (c + p + d)) =~= a + p + b + p + c + p + d);
}

/// A text of four pieces is those pieces with points between them.
proof fn lemma_four_pieces(s: Seq<char>)
    requires
        split(s, '.').len() == 4,
    ensures
        ({
            let parts = split(s, '.');
            s == parts[0] + seq!['.'] + parts[1] + seq!['.'] + parts[2] + seq!['.'] + parts[3]
        }),
{
    let parts = split(s, '.');
    let s1 = after(s, '.');
    let s2 = after(s1, '.');
    let s3 = after(s2, '.');
    lemma_behind(s, '.');
    let of_s1 = split(s1, '.');
    assert(of_s1[0] == parts[1] && of_s1[1] == parts[2] && of_s1[2] == parts[3]);
    lemma_behind(s1, '.');
    let of_s2 = split(s2, '.');
    assert(of_s2[0] == of_s1[1] && of_s2[1] == of_s1[2]);
    lemma_behind(s2, '.');
    assert(split(s3, '.')[0] == of_s2[1]);
    lemma_unsplit(s3, '.');
    lemma_put_together(parts[0], parts[1], parts[2], parts[3]);
}

proof fn lemma_address_is_quad(s: Seq<char>)
    requires
        is_ipv4(s),
    ensures
        is_quad(s),
{
    let parts = split(s, '.');
    lemma_byte(parts[0]);
    lemma_byte(parts[1]);
    lemma_byte(parts[2]);
    lemma_byte(parts[3]);
    lemma_four_pieces(s);
    assert(is_quad_of(s, parts[0], parts[1], parts[2], parts[3]));
}

/// An address is four numbers of 0 to 255 with points between them, and nothing else
/// is.
pub proof fn law_an_address_is_four_numbers(s: Seq<char>)
    ensures
        is_ipv4(s) <==> is_quad(s),
{
    if is_quad(s) {
        let (a, b, c, d) = choose|a: Seq<char>, b: Seq<char>, c: Seq<char>, d: Seq<char>| #[trigger]
            is_quad_of(s, a, b, c, d);
        lemma_quad_is_address(s, a, b, c, d);
    }
    if is_ipv4(s) {
        lemma_address_is_quad(s);
    }
}

/// A text is its first piece, and where there are more, the separator and the rest.
proof fn lemma_unsplit(s: Seq<char>, c: char)
    ensures
        split(s, c).len() == 1 ==> s == split(s, c)[0],
        split(s, c).len() > 1 ==> s == split(s, c)[0] + seq![c] + after(s, c) && split(s, c)
            == seq![split(s, c)[0]] + split(after(s, c), c),
{
    lemma_split_step(s, c);
    lemma_prefix_len(s, c);
    if before(s, c).len() < s.len() {
        lemma_split_step(after(s, c), c);
        assert(s =~= before(s, c) + seq![c] + after(s, c));
    }
}

/// A host header of a name: the name between white space, and perhaps a port.
pub open spec fn is_host_of(host: Seq<char>, name: Seq<char>) -> bool {
    exists|front: Seq<char>, back: Seq<char>, port: Seq<char>| #[trigger]
        is_host_with(host, name, front, back, port)
}

/// A host header of a name, with that white space round it and that port, if any.
pub open spec fn is_host_with(
    host: Seq<char>,
    name: Seq<char>,
    front: Seq<char>,
    back: Seq<char>,
    port: Seq<char>,
) -> bool {
    &&& is_blank(front) && is_blank(back)
    &&& host == front + name + back || host == front + name + back + seq![':'] + port
}

proof fn lemma_host_name(host: Seq<char>, name: Seq<char>)
    requires
        is_host_of(host, name),
        !name.contains(':'),
        name.len() > 0 ==> !is_white_space(name[0]) && !is_white_space(name.last()),
    ensures
        host_name(host) == name,
{
    let (front, back, port) = choose|front: Seq<char>, back: Seq<char>, port: Seq<char>| #[trigger]
        is_host_with(host, name, front, back, port);
    let all = front + name + back;
    assert forall|i: int| 0 <= i < all.len() implies all[i] != ':' && (i < host.len() ==> host[i]
        == all[i]) by {
        if i < front.len() {
            assert(is_white_space(front[i]));
        } else if i < front.len() + name.len() {
            assert(name.contains(name[i - front.len()]));
        } else {
            assert(is_white_space(back[i - front.len() - name.len()]));
        }
    }
    lemma_prefix_len_is(host, ':', all.len() as int);
    assert(before(host, ':') =~= all);
    law_trimming(front, name, back);
}

/// The first label of every name of three labels or more that is no address is the
/// tenant, whatever its characters and whatever white space or port stands round the
/// name.
pub proof fn law_first_label_is_the_tenant(
    host: Seq<char>,
    label: Seq<char>,
    second: Seq<char>,
    rest: Seq<char>,
)
    requires
        label.len() > 0,
        !label.contains('.'),
        !second.contains('.'),
        ({
            let name = label + seq!['.'] + second + seq!['.'] + rest;
            &&& is_host_of(host, name)
            &&& !name.contains(':')
            &&& !is_white_space(name[0]) && !is_white_space(name.last())
            &&& !is_quad(name)
        }),
    ensures
        tenant_hint(host) == Some(label),
{
    let p = seq!['.'];
    let name = label + p + second + p + rest;
    lemma_host_name(host, name);
    law_an_address_is_four_numbers(name);
    assert(name =~= label + p + (second + p + rest));
    assert forall|i: int| 0 <= i < label.len() implies label[i] != '.' by {
        assert(label.contains(label[i]));
    }
    assert forall|i: int| 0 <= i < second.len() implies second[i] != '.' by {
        assert(second.contains(second[i]));
    }
    lemma_split_front(label, '.', second + p + rest);
    lemma_split_front(second, '.', rest);
    lemma_split_step(rest, '.');
    assert(split(name, '.')[0] == label);
}

/// No other name has a tenant: none that is an address, begins with a point, or has
/// fewer than two points.
pub proof fn law_no_other_name_has_a_tenant(host: Seq<char>, name: Seq<char>)
    requires
        is_host_of(host, name),
        !name.contains(':'),
        name.len() > 0 ==> !is_white_space(name[0]) && !is_white_space(name.last()),
        ({
            ||| is_quad(name)
            ||| name.len() > 0 && name[0] == '.'
            ||| forall|i: int, j: int|
                0 <= i < j < name.len() ==> !(#[trigger] name[i] == '.' && #[trigger] name[j]
                    == '.')
        }),
    ensures
        tenant_hint(host) is None,
{
    lemma_host_name(host, name);
    law_an_address_is_four_numbers(name);
    if tenant_hint(host) is Some {
        let labels = split(name, '.');
        let rest = after(name, '.');
        lemma_unsplit(name, '.');
        lemma_unsplit(rest, '.');
        lemma_split_step(name, '.');
        lemma_split_step(rest, '.');
        assert(labels.skip(1) =~= split(rest, '.'));
        let i = labels[0].len() as int;
        let j = i + 1 + split(rest, '.')[0].len();
        assert(name[i] == '.');
        assert(rest[split(rest, '.')[0].len() as int] == '.');
        assert(name[j] == '.');
        lemma_prefix_len(name, '.');
        assert(name[0] == labels[0][0]);
    }
}

} // verus!
