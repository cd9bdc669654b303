//! Web links in a row of terminal text.
use vstd::prelude::*;
use crate::text;

verus! {

/// A character that ends a link.
pub open spec fn stops(c: char) -> bool {
    text::whitespace(c) || c == '"' || c == '\'' || c == '<' || c == '>' || c == ')' || c == ']'
        || c == '|'
}

/// A character that is punctuation where it ends a link.
pub open spec fn trails(c: char) -> bool {
    c == '.' || c == ',' || c == ';' || c == '!' || c == '?'
}

/// How far a link can reach: up to the first character that ends it.
pub open spec fn reach(s: Seq<char>) -> nat
    decreases s.len(),
{
    if s.len() == 0 || stops(s[0]) {
        0
    } else {
        1 + reach(s.skip(1))
    }
}

/// A text without the punctuation at its end.
pub open spec fn without_trail(s: Seq<char>) -> Seq<char>
    decreases s.len(),
{
    if s.len() > 0 && trails(s.last()) {
        without_trail(s.drop_last())
    } else {
        s
    }
}

/// The link with which a text begins, if it does: a scheme with something
/// behind it, up to the first character that ends a link, and without the
/// punctuation before that.
pub open spec fn link_from(s: Seq<char>) -> Option<Seq<char>> {
    if !text::starts_with(s, "https://"@) && !text::starts_with(s, "http://"@) {
        None
    } else {
        let link = without_trail(s.take(reach(s) as int));
        let scheme: nat = if text::starts_with(link, "https://"@) {
            8
        } else {
            7
        };
        if link.len() > scheme {
            Some(link)
        } else {
            None
        }
    }
}

/// The first place, from `from` on, at which `part` stands.
pub open spec fn place_from(s: Seq<char>, part: Seq<char>, from: int) -> Option<int>
    decreases s.len() + 1 - from,
{
    if from < 0 || from > s.len() {
        None
    } else if text::occurs_at(s, part, from) {
        Some(from)
    } else {
        place_from(s, part, from + 1)
    }
}

/// Where the next link is looked for: at the first secure scheme from `from` on,
/// and only without one at the first plain scheme.
pub open spec fn next_scheme(s: Seq<char>, from: int) -> Option<int> {
    match place_from(s, "https://"@, from) {
        Some(at) => Some(at),
        None => place_from(s, "http://"@, from),
    }
}

/// The link that a row shows first.
pub open spec fn first_link(s: Seq<char>) -> Option<Seq<char>> {
    match next_scheme(s, 0) {
        Some(at) => link_from(s.skip(at)),
        None => None,
    }
}

/// A link could begin here: one of the schemes does.
pub open spec fn scheme_at(s: Seq<char>, i: int) -> bool {
    text::occurs_at(s, "https://"@, i) || text::occurs_at(s, "http://"@, i)
}

/// The first place, from `from` on, at which a link could begin.
pub open spec fn scheme_from(s: Seq<char>, from: int) -> Option<int>
    decreases s.len() + 1 - from,
{
    if from < 0 || from > s.len() {
        None
    } else if scheme_at(s, from) {
        Some(from)
    } else {
        scheme_from(s, from + 1)
    }
}

/// The link that covers a column of a row, among those found one after the
/// other from `from` on.
pub open spec fn link_over(s: Seq<char>, column: int, from: int) -> Option<Seq<char>>
    decreases s.len() - from,
    via link_over_moves_on
{
    if from < 0 || from >= s.len() {
        None
    } else {
        match scheme_from(s, from) {
            None => None,
            Some(at) => match link_from(s.skip(at)) {
                None => link_over(s, column, at + 1),
                Some(link) => if at <= column < at + link.len() {
                    Some(link)
                } else {
                    link_over(s, column, at + link.len())
                },
            },
        }
    }
}

#[via_fn]
proof fn link_over_moves_on(s: Seq<char>, column: int, from: int) {
    if from >= 0 {
        lemma_scheme_from(s, from);
        if let Some(at) = scheme_from(s, from) {
            lemma_link_inside(s.skip(at));
        }
    }
}

fn is_stop(c: char) -> (r: bool)
    ensures
        r == stops(c),
{
    text::is_whitespace(c) || c == '"' || c == '\'' || c == '<' || c == '>' || c == ')' || c == ']'
        || c == '|'
}

fn is_trail(c: char) -> (r: bool)
    ensures
        r == trails(c),
{
    c == '.' || c == ',' || c == ';' || c == '!' || c == '?'
}

/// The link with which the characters from `at` on begin, if they do.
pub fn http_url_from(s: &[char], at: usize) -> (r: Option<Vec<char>>)
    requires
        at <= s@.len(),
    ensures
        match r {
            Some(link) => link_from(s@.skip(at as int)) == Some(link@),
            None => link_from(s@.skip(at as int)) is None,
        },
{
    let ghost rest = s@.skip(at as int);
    let secure = text::chars_of("https://");
    let plain = text::chars_of("http://");
    let rest_slice = vstd::slice::slice_subrange(s, at, s.len());
    assert(rest_slice@ =~= rest);
    if !text::stands_at(rest_slice, secure.as_slice(), 0) && !text::stands_at(
        rest_slice,
        plain.as_slice(),
        0,
    ) {
        return None;
    }
    let mut end: usize = 0;
    assert(rest.skip(0) =~= rest);
    while end < rest_slice.len() && !is_stop(rest_slice[end])
        invariant
            rest_slice@ == rest,
            end <= rest.len(),
            reach(rest) == end + reach(rest.skip(end as int)),
        decreases rest.len() - end,
    {
        assert(rest.skip(end as int).skip(1) =~= rest.skip(end + 1));
        assert(rest.skip(end as int)[0] == rest[end as int]);
        end = end + 1;
    }
    assert(reach(rest) == end) by {
        if end < rest.len() {
            assert(rest.skip(end as int)[0] == rest[end as int]);
        }
    }
    let ghost whole = rest.take(end as int);
    let mut keep: usize = end;
    assert(rest.take(keep as int) =~= whole);
    while keep > 0 && is_trail(rest_slice[keep - 1])
        invariant
            rest_slice@ == rest,
            keep <= end <= rest.len(),
            without_trail(whole) == without_trail(rest.take(keep as int)),
        decreases keep,
    {
        assert(rest.take(keep as int).drop_last() =~= rest.take(keep - 1));
        keep = keep - 1;
    }
    let link = text::part_of(rest_slice, 0, keep);
    assert(link@ =~= rest.take(keep as int));
    assert(without_trail(whole) == link@);
    let scheme: usize = if text::stands_at(link.as_slice(), secure.as_slice(), 0) {
        8
    } else {
        7
    };
    if link.len() > scheme {
        Some(link)
    } else {
        None
    }
}

fn find_from(s: &[char], part: &str, from: usize) -> (r: Option<usize>)
    requires
        from <= s@.len(),
    ensures
        match r {
            Some(at) => place_from(s@, part@, from as int) == Some(at as int) && at <= s@.len(),
            None => place_from(s@, part@, from as int) is None,
        },
{
    let p = text::chars_of(part);
    let mut at: usize = from;
    while at <= s.len()
        invariant
            p@ == part@,
            from <= at <= s@.len() + 1,
            place_from(s@, part@, from as int) == place_from(s@, part@, at as int),
        decreases s@.len() + 1 - at,
    {
        if text::stands_at(s, p.as_slice(), at) {
            return Some(at);
        }
        if at == s.len() {
            assert(place_from(s@, part@, at + 1) is None);
            return None;
        }
        at = at + 1;
    }
    None
}

fn find_scheme(s: &[char], from: usize) -> (r: Option<usize>)
    requires
        from <= s@.len(),
    ensures
        match r {
            Some(at) => next_scheme(s@, from as int) == Some(at as int) && at <= s@.len(),
            None => next_scheme(s@, from as int) is None,
        },
{
    match find_from(s, "https://", from) {
        Some(at) => Some(at),
        None => find_from(s, "http://", from),
    }
}

fn find_any_scheme(s: &[char], from: usize) -> (r: Option<usize>)
    requires
        from <= s@.len(),
    ensures
        match r {
            Some(at) => scheme_from(s@, from as int) == Some(at as int) && at <= s@.len(),
            None => scheme_from(s@, from as int) is None,
        },
{
    let secure = text::chars_of("https://");
    let plain = text::chars_of("http://");
    let mut at: usize = from;
    while at <= s.len()
        invariant
            secure@ == "https://"@,
            plain@ == "http://"@,
            from <= at <= s@.len() + 1,
            scheme_from(s@, from as int) == scheme_from(s@, at as int),
        decreases s@.len() + 1 - at,
    {
        if text::stands_at(s, secure.as_slice(), at) || text::stands_at(s, plain.as_slice(), at) {
            return Some(at);
        }
        if at == s.len() {
            assert(scheme_from(s@, at + 1) is None);
            return None;
        }
        at = at + 1;
    }
    None
}

/// The link that a row shows first.
pub fn first_http_url(s: &[char]) -> (r: Option<Vec<char>>)
    ensures
        match r {
            Some(link) => first_link(s@) == Some(link@),
            None => first_link(s@) is None,
        },
{
    match find_scheme(s, 0) {
        Some(at) => http_url_from(s, at),
        None => None,
    }
}

/// The link that covers a column of a row.
pub fn http_url_at(s: &[char], column: usize) -> (r: Option<Vec<char>>)
    ensures
        match r {
            Some(link) => link_over(s@, column as int, 0) == Some(link@),
            None => link_over(s@, column as int, 0) is None,
        },
{
    let mut from: usize = 0;
    while from < s.len()
        invariant
            from <= s@.len(),
            link_over(s@, column as int, 0) == link_over(s@, column as int, from as int),
        decreases s@.len() - from,
    {
        let at: usize = match find_any_scheme(s, from) {
            Some(at) => at,
            None => return None,
        };
        proof {
            lemma_scheme_from(s@, from as int);
        }
        match http_url_from(s, at) {
            None => {
                from = at + 1;
            },
            Some(link) => {
                proof {
                    lemma_link_inside(s@.skip(at as int));
                }
                if column >= at && column - at < link.len() {
                    return Some(link);
                }
                from = at + link.len();
            },
        }
    }
    None
}

/// A scheme stands inside its text, and none stands before the first.
proof fn lemma_scheme_from(s: Seq<char>, from: int)
    requires
        from >= 0,
    ensures
        match scheme_from(s, from) {
            Some(at) => from <= at < s.len() && scheme_at(s, at) && forall|i: int|
                from <= i < at ==> !scheme_at(s, i),
            None => forall|i: int| from <= i ==> !scheme_at(s, i),
        },
    decreases s.len() + 1 - from,
{
    reveal_strlit("https://");
    reveal_strlit("http://");
    assert("https://"@.len() == 8);
    assert("http://"@.len() == 7);
    if from <= s.len() && !scheme_at(s, from) {
        lemma_scheme_from(s, from + 1);
    }
}

proof fn lemma_reach(s: Seq<char>)
    ensures
        reach(s) <= s.len(),
        forall|i: int| 0 <= i < reach(s) ==> !stops(#[trigger] s[i]),
    decreases s.len(),
{
    if s.len() > 0 && !stops(s[0]) {
        lemma_reach(s.skip(1));
        assert forall|i: int| 0 <= i < reach(s) implies !stops(#[trigger] s[i]) by {
            if i > 0 {
                assert(s.skip(1)[i - 1] == s[i]);
            }
        }
    }
}

proof fn lemma_without_trail(s: Seq<char>)
    ensures
        without_trail(s).len() <= s.len(),
        without_trail(s) == s.take(without_trail(s).len() as int),
        without_trail(s).len() > 0 ==> !trails(without_trail(s).last()),
    decreases s.len(),
{
    if s.len() > 0 && trails(s.last()) {
        lemma_without_trail(s.drop_last());
        let n = without_trail(s).len() as int;
        assert(s.drop_last().take(n) =~= s.take(n));
    } else {
        assert(s.take(s.len() as int) =~= s);
    }
}

proof fn lemma_link_inside(s: Seq<char>)
    ensures
        link_from(s) is Some ==> 7 < link_from(s)->0.len() <= s.len(),
{
    lemma_reach(s);
    lemma_without_trail(s.take(reach(s) as int));
}

/// A column inside a link that begins where no earlier link reaches is covered by
/// that link.
pub proof fn a_link_covers_its_own_cells(s: Seq<char>, at: int, column: int)
    requires
        0 <= at < s.len(),
        scheme_at(s, at),
        forall|i: int| 0 <= i < at ==> !scheme_at(s, i),
        link_from(s.skip(at)) is Some,
        at <= column < at + link_from(s.skip(at))->0.len(),
    ensures
        link_over(s, column, 0) == link_from(s.skip(at)),
{
    lemma_scheme_from(s, 0);
    assert(scheme_from(s, 0) == Some(at));
}

/// A link begins with a web scheme and holds something behind it, is part of
/// the text that it was found in, and holds no space, quote or closing bracket
/// and no punctuation at its end.
pub proof fn a_link_is_clean(s: Seq<char>)
    ensures
        match link_from(s) {
            Some(link) => {
                &&& link.len() <= s.len()
                &&& link == s.take(link.len() as int)
                &&& forall|i: int| 0 <= i < link.len() ==> !stops(#[trigger] link[i])
                &&& !trails(link.last())
                &&& link.len() > 7
                &&& text::starts_with(link, "https://"@) || text::starts_with(link, "http://"@)
            },
            None => true,
        },
{
    reveal_strlit("https://");
    reveal_strlit("http://");
    if link_from(s) is Some {
        let whole = s.take(reach(s) as int);
        lemma_reach(s);
        lemma_without_trail(whole);
        let link = link_from(s)->0;
        assert(link =~= s.take(link.len() as int));
        if text::starts_with(s, "http://"@) {
            assert(link.subrange(0, 7) =~= s.subrange(0, 7));
        } else {
            assert(s.subrange(0, 8) == "https://"@);
            if link.len() >= 8 {
                assert(link.subrange(0, 8) =~= s.subrange(0, 8));
            }
        }
        assert forall|i: int| 0 <= i < link.len() implies !stops(#[trigger] link[i]) by {
            assert(link[i] == s[i]);
        }
    }
}

/// A link ends at white space, at a quote, at an angle bracket, at a closing bracket
/// and at a bar; of the characters that end a sentence it drops those at its end.
pub proof fn which_characters_end_a_link(c: char)
    ensures
        c == '"' || c == '\'' || c == '<' || c == '>' || c == ')' || c == ']' || c == '|' || c == ' '
            ==> stops(c),
        c == '/' || c == ':' || c == '.' || c == '-' || c == '?' || c == '&' || c == '=' || c == '#'
            || c == '%' || c == '(' || c == '[' || c == '_' || c == '~' || c == '+' || c == ','
            || c == ';' || c == '!' ==> !stops(c),
        ('a' <= c && c <= 'z') || ('A' <= c && c <= 'Z') || ('0' <= c && c <= '9') ==> !stops(c)
            && !trails(c),
        c == '.' || c == ',' || c == ';' || c == '!' || c == '?' <==> trails(c),
{
}

proof fn lemma_reach_is(s: Seq<char>, n: nat)
    requires
        n <= s.len(),
        forall|i: int| 0 <= i < n ==> !stops(#[trigger] s[i]),
        n < s.len() ==> stops(s[n as int]),
    ensures
        reach(s) == n,
    decreases n,
{
    if n > 0 {
        assert(!stops(s[0]));
        let rest = s.skip(1);
        assert forall|i: int| 0 <= i < n - 1 implies !stops(#[trigger] rest[i]) by {
            assert(rest[i] == s[i + 1]);
        }
        lemma_reach_is(rest, (n - 1) as nat);
    }
}

proof fn lemma_trail_is(s: Seq<char>, n: nat)
    requires
        0 < n <= s.len(),
        !trails(s[n - 1]),
        forall|i: int| n <= i < s.len() ==> trails(#[trigger] s[i]),
    ensures
        without_trail(s) == s.take(n as int),
    decreases s.len(),
{
    if s.len() > n {
        assert(trails(s[s.len() - 1]));
        assert forall|i: int| n <= i < s.len() - 1 implies trails(#[trigger] s.drop_last()[i]) by {
            assert(s.drop_last()[i] == s[i]);
        }
        lemma_trail_is(s.drop_last(), n);
        assert(s.drop_last().take(n as int) =~= s.take(n as int));
    } else {
        assert(s.take(n as int) =~= s);
    }
}

/// A web address is the link of the text that it begins: all of it up to the first
/// character that ends a link, without the punctuation of the sentence around it.
pub proof fn an_address_is_the_link_that_it_begins(
    secure: bool,
    body: Seq<char>,
    trail: Seq<char>,
    rest: Seq<char>,
)
    requires
        body.len() > 0,
        forall|i: int| 0 <= i < body.len() ==> !stops(#[trigger] body[i]),
        !trails(body.last()),
        forall|i: int| 0 <= i < trail.len() ==> trails(#[trigger] trail[i]),
        rest.len() > 0 ==> stops(rest[0]),
    ensures
        ({
            let scheme = if secure {
                "https://"@
            } else {
                "http://"@
            };
            link_from(scheme + body + trail + rest) == Some(scheme + body)
        }),
{
    reveal_strlit("https://");
    reveal_strlit("http://");
    let scheme = if secure {
        "https://"@
    } else {
        "http://"@
    };
    let s = scheme + body + trail + rest;
    let link = scheme + body;
    let n = link.len() + trail.len();
    assert forall|i: int| 0 <= i < n implies !stops(#[trigger] s[i]) by {
        if i < scheme.len() {
            assert(s[i] == scheme[i]);
        } else if i < link.len() {
            assert(s[i] == body[i - scheme.len()]);
        } else {
            assert(s[i] == trail[i - link.len()]);
        }
    }
    if n < s.len() {
        assert(s[n as int] == rest[0]);
    }
    lemma_reach_is(s, n);
    let whole = s.take(n as int);
    assert(whole =~= link + trail);
    assert(whole[link.len() - 1] == body.last());
    assert forall|i: int| link.len() <= i < whole.len() implies trails(#[trigger] whole[i]) by {
        assert(whole[i] == trail[i - link.len()]);
    }
    lemma_trail_is(whole, link.len());
    assert(whole.take(link.len() as int) =~= link);
    assert(s.subrange(0, scheme.len() as int) =~= scheme);
    assert(link.subrange(0, scheme.len() as int) =~= scheme);
    if !secure {
        if text::starts_with(link, "https://"@) {
            assert(link.subrange(0, 8)[4] == link[4]);
        }
    }
}

/// A text that begins with no web scheme begins with no link, and neither does a scheme
/// with nothing behind it.
pub proof fn a_scheme_alone_is_no_link(s: Seq<char>)
    ensures
        !text::starts_with(s, "https://"@) && !text::starts_with(s, "http://"@) ==> link_from(s)
            is None,
        link_from("https://"@) is None,
        link_from("http://"@) is None,
{
    reveal_strlit("https://");
    reveal_strlit("http://");
    a_link_is_clean("https://"@);
    a_link_is_clean("http://"@);
    let a = "https://"@;
    let b = "http://"@;
    lemma_reach_is(a, 8);
    lemma_reach_is(b, 7);
    lemma_trail_is(a, 8);
    lemma_trail_is(b, 7);
    assert(a.take(8) =~= a);
    assert(b.take(7) =~= b);
    assert(a.subrange(0, 8) =~= a);
}

proof fn lemma_place_from(s: Seq<char>, part: Seq<char>, from: int)
    requires
        0 <= from,
    ensures
        match place_from(s, part, from) {
            Some(at) => from <= at && text::occurs_at(s, part, at) && forall|i: int|
                from <= i < at ==> !#[trigger] text::occurs_at(s, part, i),
            None => forall|i: int| from <= i ==> !#[trigger] text::occurs_at(s, part, i),
        },
    decreases s.len() + 1 - from,
{
    if from <= s.len() && !text::occurs_at(s, part, from) {
        lemma_place_from(s, part, from + 1);
    }
}

/// The link that a row shows first is the one at its first secure address, or without
/// one the one at its first plain address.
pub proof fn the_first_secure_address_comes_first(s: Seq<char>, at: int)
    requires
        0 <= at,
    ensures
        text::occurs_at(s, "https://"@, at) && (forall|i: int|
            0 <= i < at ==> !#[trigger] text::occurs_at(s, "https://"@, i)) ==> first_link(s)
            == link_from(s.skip(at)),
        text::occurs_at(s, "http://"@, at) && (forall|i: int|
            0 <= i < at ==> !#[trigger] text::occurs_at(s, "http://"@, i)) && (forall|i: int|
            0 <= i ==> !#[trigger] text::occurs_at(s, "https://"@, i)) ==> first_link(s)
            == link_from(s.skip(at)),
        (forall|i: int|
            0 <= i ==> !(#[trigger] text::occurs_at(s, "https://"@, i))) && (forall|i: int|
            0 <= i ==> !(#[trigger] text::occurs_at(s, "http://"@, i))) ==> first_link(s) is None,
{
    lemma_place_from(s, "https://"@, 0);
    lemma_place_from(s, "http://"@, 0);
}

} // verus!
