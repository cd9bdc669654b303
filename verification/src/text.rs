//! Text as sequences of characters: searching, splitting, numbers and the few
//! character classes that the rest of the library relies on.
use vstd::prelude::*;
use vstd::string::*;

verus! {

/// `String::push` appends one character at the end.
pub assume_specification[ String::push ](s: &mut String, c: char)
    ensures
        final(s)@ == old(s)@.push(c),
;

/// The character with an ASCII capital letter replaced by its small letter.
pub open spec fn lower(c: char) -> char {
    if 'A' <= c && c <= 'Z' {
        ((c as u8 + 32) as u8) as char
    } else {
        c
    }
}

/// A text with every ASCII capital letter made small.
pub open spec fn lowered(s: Seq<char>) -> Seq<char> {
    s.map_values(|c: char| lower(c))
}

/// `part` stands in `s` at position `i`.
pub open spec fn occurs_at(s: Seq<char>, part: Seq<char>, i: int) -> bool {
    0 <= i && i + part.len() <= s.len() && s.subrange(i, i + part.len()) == part
}

/// `part` stands somewhere in `s`.
pub open spec fn contains(s: Seq<char>, part: Seq<char>) -> bool {
    exists|i: int| occurs_at(s, part, i)
}

/// `s` begins with `part`.
pub open spec fn starts_with(s: Seq<char>, part: Seq<char>) -> bool {
    occurs_at(s, part, 0)
}

/// `s` ends with `part`.
pub open spec fn ends_with(s: Seq<char>, part: Seq<char>) -> bool {
    occurs_at(s, part, s.len() - part.len())
}

/// A control character: Unicode category Cc.
pub open spec fn control(c: char) -> bool {
    (c as u32) <= 0x1f || (0x7f <= (c as u32) && (c as u32) <= 0x9f)
}

/// Some character of the text is a control character.
pub open spec fn has_control(s: Seq<char>) -> bool {
    exists|i: int| 0 <= i < s.len() && control(#[trigger] s[i])
}

/// A character of Unicode's White_Space property.
pub open spec fn whitespace(c: char) -> bool {
    let n = c as u32;
    (0x09 <= n && n <= 0x0d) || n == 0x20 || n == 0x85 || n == 0xa0 || n == 0x1680
        || (0x2000 <= n && n <= 0x200a) || n == 0x2028 || n == 0x2029 || n == 0x202f
        || n == 0x205f || n == 0x3000
}

/// The decimal digit that stands for `d`.
pub open spec fn digit(d: nat) -> char {
    ((48 + d) as u8) as char
}

/// A decimal digit.
pub open spec fn is_digit(c: char) -> bool {
    '0' <= c && c <= '9'
}

/// The decimal numeral of `n`, without leading zeros.
pub open spec fn digits(n: nat) -> Seq<char>
    decreases n,
{
    if n < 10 {
        seq![digit(n)]
    } else {
        digits(n / 10).push(digit(n % 10))
    }
}

/// The number that a run of decimal digits denotes.
pub open spec fn value(s: Seq<char>) -> nat
    decreases s.len(),
{
    if s.len() == 0 {
        0
    } else {
        10 * value(s.drop_last()) + (s.last() as nat - 48) as nat
    }
}

/// Every character is a decimal digit.
pub open spec fn all_digits(s: Seq<char>) -> bool {
    forall|i: int| 0 <= i < s.len() ==> is_digit(#[trigger] s[i])
}

/// The digits of a numeral: what follows an optional plus sign.
pub open spec fn unsigned(s: Seq<char>) -> Seq<char> {
    if s.len() > 0 && s[0] == '+' {
        s.skip(1)
    } else {
        s
    }
}

/// The number that a numeral denotes; `None` for text that is no numeral.
pub open spec fn number(s: Seq<char>) -> Option<nat> {
    let d = unsigned(s);
    if d.len() > 0 && all_digits(d) {
        Some(value(d))
    } else {
        None
    }
}

/// The number that a numeral denotes, where it does not exceed `limit`.
pub open spec fn number_within(s: Seq<char>, limit: nat) -> Option<nat> {
    match number(s) {
        Some(n) => if n <= limit {
            Some(n)
        } else {
            None
        },
        None => None,
    }
}

/// The parts of `s` between occurrences of `separator`, in order.
pub open spec fn split(s: Seq<char>, separator: char) -> Seq<Seq<char>>
    decreases s.len(),
{
    if s.len() == 0 {
        seq![Seq::<char>::empty()]
    } else {
        let parts = split(s.drop_last(), separator);
        if s.last() == separator {
            parts.push(Seq::<char>::empty())
        } else {
            parts.drop_last().push(parts.last().push(s.last()))
        }
    }
}

/// A line without the carriage return that may stand at its end.
pub open spec fn without_return(s: Seq<char>) -> Seq<char> {
    if s.len() > 0 && s.last() == '\r' {
        s.drop_last()
    } else {
        s
    }
}

/// The lines of a text: a line feed ends a line together with a carriage return
/// before it, and what follows the last line feed is a line if it is not empty.
pub open spec fn lines(s: Seq<char>) -> Seq<Seq<char>> {
    let parts = split(s, '\n');
    let ended = parts.drop_last().map_values(|p: Seq<char>| without_return(p));
    if parts.last().len() == 0 {
        ended
    } else {
        ended.push(parts.last())
    }
}

/// The text without the white space at its beginning.
pub open spec fn trim_start(s: Seq<char>) -> Seq<char>
    decreases s.len(),
{
    if s.len() > 0 && whitespace(s[0]) {
        trim_start(s.skip(1))
    } else {
        s
    }
}

/// The text without the white space at its end.
pub open spec fn trim_end(s: Seq<char>) -> Seq<char>
    decreases s.len(),
{
    if s.len() > 0 && whitespace(s.last()) {
        trim_end(s.drop_last())
    } else {
        s
    }
}

/// The text without the white space around it.
pub open spec fn trimmed(s: Seq<char>) -> Seq<char> {
    trim_end(trim_start(s))
}

/// The words of a text: its longest parts without white space, in order.
pub open spec fn words(s: Seq<char>) -> Seq<Seq<char>>
    decreases s.len(),
{
    if s.len() == 0 {
        Seq::empty()
    } else {
        let before = words(s.drop_last());
        if whitespace(s.last()) {
            before
        } else if s.len() > 1 && !whitespace(s[s.len() - 2]) {
            before.drop_last().push(before.last().push(s.last()))
        } else {
            before.push(seq![s.last()])
        }
    }
}

/// At most the first `n` characters of a text.
pub open spec fn first(s: Seq<char>, n: nat) -> Seq<char> {
    if s.len() <= n {
        s
    } else {
        s.take(n as int)
    }
}

/// The texts of a list of character vectors.
pub open spec fn texts(v: Seq<Vec<char>>) -> Seq<Seq<char>> {
    Seq::new(v.len(), |i: int| v[i]@)
}

/// The texts of a list of strings.
pub open spec fn strings(v: Seq<String>) -> Seq<Seq<char>> {
    Seq::new(v.len(), |i: int| v[i]@)
}

/// One byte for each character of an ASCII text.
pub open spec fn ascii(s: Seq<char>) -> Seq<u8> {
    Seq::new(s.len(), |i: int| s[i] as u8)
}

/// The first part of a text that has more than one ends where the separator
/// first stands.
pub proof fn lemma_split_first(s: Seq<char>, separator: char)
    ensures
        split(s, separator).len() >= 1,
        split(s, separator)[0].len() <= s.len(),
        split(s, separator)[0] == s.take(split(s, separator)[0].len() as int),
        !split(s, separator)[0].contains(separator),
        split(s, separator).len() > 1 ==> split(s, separator)[0].len() < s.len()
            && s[split(s, separator)[0].len() as int] == separator,
        split(s, separator).len() == 1 ==> split(s, separator)[0] == s,
    decreases s.len(),
{
    if s.len() > 0 {
        let d = s.drop_last();
        lemma_split_first(d, separator);
        let before = split(d, separator);
        let after = split(s, separator);
        let n = after[0].len() as int;
        if s.last() == separator {
            assert(after[0] == before[0]);
            assert(d.take(n) =~= s.take(n));
        } else if before.len() == 1 {
            assert(after[0] =~= before[0].push(s.last()));
            assert(after[0] =~= s);
            assert(s.take(n) =~= s);
            assert forall|i: int| 0 <= i < after[0].len() implies after[0][i] != separator by {
                if i < before[0].len() {
                    assert(before[0][i] != separator);
                }
            }
        } else {
            assert(after[0] == before[0]);
            assert(d.take(n) =~= s.take(n));
        }
    } else {
        assert(s.take(0) =~= s);
    }
}

/// A numeral has at least one digit and consists of digits alone.
pub proof fn lemma_digits(n: nat)
    ensures
        digits(n).len() >= 1,
        all_digits(digits(n)),
        value(digits(n)) == n,
    decreases n,
{
    if n < 10 {
        assert(digits(n).drop_last() =~= Seq::<char>::empty());
        assert(value(digits(n).drop_last()) == 0);
        assert(digits(n).last() == digit(n));
    } else {
        lemma_digits(n / 10);
        assert(digits(n).drop_last() =~= digits(n / 10));
        assert(digits(n).last() == digit(n % 10));
    }
}

/// Reading a rendered number gives the number back.
pub proof fn a_rendered_number_reads_back(n: nat)
    ensures
        number(digits(n)) == Some(n),
{
    lemma_digits(n);
    assert(digits(n)[0] != '+') by {
        assert(is_digit(digits(n)[0]));
    }
}

/// A longer run of digits denotes no smaller number.
pub proof fn lemma_value_grows(s: Seq<char>, n: int)
    requires
        0 <= n <= s.len(),
        all_digits(s),
    ensures
        value(s.take(n)) <= value(s),
    decreases s.len() - n,
{
    if n < s.len() {
        assert(s.drop_last().take(n) =~= s.take(n));
        assert(all_digits(s.drop_last())) by {
            assert forall|i: int| 0 <= i < s.len() - 1 implies is_digit(
                #[trigger] s.drop_last()[i],
            ) by {
                assert(is_digit(s[i]));
            }
        }
        lemma_value_grows(s.drop_last(), n);
        assert(value(s) >= value(s.drop_last()));
    } else {
        assert(s.take(n) =~= s);
    }
}

/// The characters of a text.
pub fn chars_of(s: &str) -> (r: Vec<char>)
    ensures
        r@ == s@,
{
    let mut r: Vec<char> = Vec::new();
    for c in it: s.chars()
        invariant
            it.seq() == s@,
            r@ == s@.take(it.index()),
    {
        r.push(c);
        assert(s@.take(it.index() + 1) =~= s@.take(it.index()).push(c));
    }
    assert(s@.take(s@.len() as int) =~= s@);
    r
}

/// The text made of the given characters.
pub fn string_of(v: &[char]) -> (r: String)
    ensures
        r@ == v@,
{
    let mut r = String::new();
    for i in 0..v.len()
        invariant
            r@ == v@.take(i as int),
    {
        r.push(v[i]);
        assert(v@.take(i + 1) =~= v@.take(i as int).push(v@[i as int]));
    }
    assert(v@.take(v@.len() as int) =~= v@);
    r
}

/// Whether two texts are the same.
pub fn same(a: &str, b: &str) -> (r: bool)
    ensures
        r == (a@ == b@),
{
    a.to_owned() == b.to_owned()
}

/// Whether two character slices hold the same text.
pub fn same_chars(a: &[char], b: &str) -> (r: bool)
    ensures
        r == (a@ == b@),
{
    same(string_of(a).as_str(), b)
}

fn lower_char(c: char) -> (r: char)
    ensures
        r == lower(c),
{
    if 'A' <= c && c <= 'Z' {
        (c as u8 + 32) as char
    } else {
        c
    }
}

/// The text with every ASCII capital letter made small.
pub fn to_lower(s: &str) -> (r: Vec<char>)
    ensures
        r@ == lowered(s@),
{
    let v = chars_of(s);
    let mut r: Vec<char> = Vec::new();
    for i in 0..v.len()
        invariant
            v@ == s@,
            r@ == lowered(s@).take(i as int),
    {
        r.push(lower_char(v[i]));
        assert(lowered(s@).take(i + 1) =~= lowered(s@).take(i as int).push(lowered(s@)[i as int]));
    }
    assert(lowered(s@).take(s@.len() as int) =~= lowered(s@));
    r
}

/// Whether `part` stands in `s` at position `at`.
pub fn stands_at(s: &[char], part: &[char], at: usize) -> (r: bool)
    ensures
        r == occurs_at(s@, part@, at as int),
{
    if at > s.len() || part.len() > s.len() - at {
        return false;
    }
    for i in 0..part.len()
        invariant
            at + part.len() <= s.len(),
            forall|j: int| 0 <= j < i ==> s@[at + j] == part@[j],
    {
        if s[at + i] != part[i] {
            assert(s@.subrange(at as int, at + part.len())[i as int] != part@[i as int]);
            return false;
        }
    }
    assert(s@.subrange(at as int, at + part.len()) =~= part@);
    true
}

/// Whether `part` stands somewhere in `s`.
pub fn has(s: &[char], part: &str) -> (r: bool)
    ensures
        r == contains(s@, part@),
{
    let p = chars_of(part);
    if p.len() > s.len() {
        return false;
    }
    let last: usize = s.len() - p.len();
    let mut i: usize = 0;
    while i <= last
        invariant
            p@ == part@,
            last == s@.len() - p@.len(),
            i <= last + 1,
            forall|j: int| 0 <= j < i ==> !occurs_at(s@, part@, j),
        decreases last + 1 - i,
    {
        if stands_at(s, p.as_slice(), i) {
            return true;
        }
        if i == last {
            assert forall|j: int| !occurs_at(s@, part@, j) by {}
            return false;
        }
        i = i + 1;
    }
    false
}

/// Whether `s` begins with `part`.
pub fn begins(s: &[char], part: &str) -> (r: bool)
    ensures
        r == starts_with(s@, part@),
{
    let p = chars_of(part);
    stands_at(s, p.as_slice(), 0)
}

/// Whether `s` ends with `part`.
pub fn ends(s: &[char], part: &str) -> (r: bool)
    ensures
        r == ends_with(s@, part@),
{
    let p = chars_of(part);
    if p.len() > s.len() {
        return false;
    }
    stands_at(s, p.as_slice(), s.len() - p.len())
}

/// Whether a character is a control character.
pub fn is_control(c: char) -> (r: bool)
    ensures
        r == control(c),
{
    let n: u32 = c as u32;
    n <= 0x1f || (0x7f <= n && n <= 0x9f)
}

/// Whether a text holds a control character.
pub fn any_control(s: &[char]) -> (r: bool)
    ensures
        r == has_control(s@),
{
    for i in 0..s.len()
        invariant
            forall|j: int| 0 <= j < i ==> !control(#[trigger] s@[j]),
    {
        if is_control(s[i]) {
            assert(control(s@[i as int]));
            return true;
        }
    }
    false
}

/// Whether a character is white space.
pub fn is_whitespace(c: char) -> (r: bool)
    ensures
        r == whitespace(c),
{
    let n: u32 = c as u32;
    (0x09 <= n && n <= 0x0d) || n == 0x20 || n == 0x85 || n == 0xa0 || n == 0x1680
        || (0x2000 <= n && n <= 0x200a) || n == 0x2028 || n == 0x2029 || n == 0x202f
        || n == 0x205f || n == 0x3000
}

/// Appends the decimal numeral of `n`.
pub fn push_decimal(out: &mut String, n: u64)
    ensures
        final(out)@ == old(out)@ + digits(n as nat),
    decreases n,
{
    if n >= 10 {
        push_decimal(out, n / 10);
    }
    let d: u8 = (n % 10) as u8;
    out.push((48 + d) as char);
    assert(out@ =~= old(out)@ + digits(n as nat));
}

/// Appends the decimal numeral of a wide number.
pub fn push_decimal_wide(out: &mut String, n: u128)
    ensures
        final(out)@ == old(out)@ + digits(n as nat),
    decreases n,
{
    if n >= 10 {
        push_decimal_wide(out, n / 10);
    }
    let d: u8 = (n % 10) as u8;
    out.push((48 + d) as char);
    assert(out@ =~= old(out)@ + digits(n as nat));
}

/// The decimal numeral of `n`.
pub fn decimal(n: u64) -> (r: String)
    ensures
        r@ == digits(n as nat),
{
    let mut r = String::new();
    push_decimal(&mut r, n);
    assert(r@ =~= digits(n as nat));
    r
}

/// Reads a numeral of at most `limit`.
pub fn parse(s: &[char], limit: u64) -> (r: Option<u64>)
    ensures
        match r {
            Some(n) => number_within(s@, limit as nat) == Some(n as nat),
            None => number_within(s@, limit as nat) is None,
        },
{
    let start: usize = if s.len() > 0 && s[0] == '+' {
        1
    } else {
        0
    };
    let ghost d = unsigned(s@);
    assert(d =~= s@.subrange(start as int, s@.len() as int));
    if s.len() == start {
        return None;
    }
    let mut n: u64 = 0;
    let mut i: usize = start;
    while i < s.len()
        invariant
            start <= i <= s.len(),
            d == unsigned(s@),
            d == s@.subrange(start as int, s@.len() as int),
            forall|j: int| 0 <= j < i - start ==> is_digit(#[trigger] d[j]),
            n == value(d.take(i - start)),
            n <= limit,
        decreases s.len() - i,
    {
        let c: char = s[i];
        assert(c == d[i - start]);
        if c < '0' || c > '9' {
            assert(!is_digit(d[i - start]));
            return None;
        }
        let x: u64 = (c as u32 - 48) as u64;
        proof {
            assert(d.take(i - start + 1).drop_last() =~= d.take(i - start));
            assert(value(d.take(i - start + 1)) == 10 * n + x);
            if all_digits(d) {
                lemma_value_grows(d, i - start + 1);
            }
        }
        if n > limit / 10 || x > limit - n * 10 {
            proof {
                assert(10 * n + x > limit) by (nonlinear_arith)
                    requires
                        n > limit / 10 || x > limit - n * 10,
                        x >= 0,
                ;
            }
            return None;
        }
        n = n * 10 + x;
        i = i + 1;
    }
    assert(d.take(d.len() as int) =~= d);
    Some(n)
}

/// The parts of `s` between occurrences of `separator`.
pub fn split_on(s: &[char], separator: char) -> (r: Vec<Vec<char>>)
    ensures
        texts(r@) == split(s@, separator),
        r@.len() >= 1,
{
    let mut r: Vec<Vec<char>> = Vec::new();
    let mut current: Vec<char> = Vec::new();
    proof {
        assert(s@.take(0) =~= Seq::<char>::empty());
        assert(texts(r@).push(current@) =~= split(s@.take(0), separator));
    }
    for i in 0..s.len()
        invariant
            texts(r@).push(current@) == split(s@.take(i as int), separator),
    {
        let c: char = s[i];
        let ghost before = texts(r@);
        let ghost word = current@;
        assert(s@.take(i + 1).drop_last() =~= s@.take(i as int));
        if c == separator {
            r.push(current);
            current = Vec::new();
            assert(texts(r@) =~= before.push(word));
        } else {
            current.push(c);
            assert(before.push(word).drop_last() =~= before);
        }
        assert(texts(r@).push(current@) =~= split(s@.take(i + 1), separator));
    }
    assert(s@.take(s@.len() as int) =~= s@);
    let ghost before = texts(r@);
    let ghost word = current@;
    r.push(current);
    assert(texts(r@) =~= before.push(word));
    r
}

/// How many bytes a text takes in UTF-8.
pub open spec fn byte_len(s: Seq<char>) -> nat {
    vstd::utf8::encode_utf8(s).len()
}

/// The bytes that one character takes in UTF-8.
pub open spec fn char_len(c: char) -> nat {
    vstd::utf8::encode_scalar(c as u32).len()
}

/// One more character adds its own bytes; a control character adds one.
pub proof fn lemma_byte_len_push(s: Seq<char>, c: char)
    ensures
        byte_len(s.push(c)) == byte_len(s) + char_len(c),
        (c as u32) < 0x80 ==> char_len(c) == 1,
    decreases s.len(),
{
    if s.len() == 0 {
        assert(s.push(c).drop_first() =~= Seq::<char>::empty());
        assert(vstd::utf8::encode_utf8(s.push(c).drop_first()).len() == 0);
        assert(s.push(c)[0] == c);
    } else {
        lemma_byte_len_push(s.drop_first(), c);
        assert(s.push(c).drop_first() =~= s.drop_first().push(c));
        assert(s.push(c)[0] == s[0]);
    }
}

/// A text of two parts takes the bytes of both.
pub proof fn lemma_byte_len_concat(a: Seq<char>, b: Seq<char>)
    ensures
        byte_len(a + b) == byte_len(a) + byte_len(b),
    decreases b.len(),
{
    if b.len() == 0 {
        assert(a + b =~= a);
    } else {
        lemma_byte_len_concat(a, b.drop_last());
        assert(a + b =~= (a + b.drop_last()).push(b.last()));
        assert(b =~= b.drop_last().push(b.last()));
        lemma_byte_len_push(a + b.drop_last(), b.last());
        lemma_byte_len_push(b.drop_last(), b.last());
    }
}

/// How many bytes a text takes in UTF-8.
pub fn byte_length(s: &str) -> (r: usize)
    ensures
        r == byte_len(s@),
{
    s.as_bytes().len()
}

/// One byte for each character of an ASCII text.
pub fn to_ascii(s: &str) -> (r: Vec<u8>)
    ensures
        r@ == ascii(s@),
{
    let v = chars_of(s);
    let mut r: Vec<u8> = Vec::new();
    for i in 0..v.len()
        invariant
            v@ == s@,
            r@ == ascii(s@).take(i as int),
    {
        r.push(v[i] as u8);
        assert(ascii(s@).take(i + 1) =~= ascii(s@).take(i as int).push(ascii(s@)[i as int]));
    }
    assert(ascii(s@).take(s@.len() as int) =~= ascii(s@));
    r
}

/// The lines of a text.
pub fn lines_of(s: &[char]) -> (r: Vec<Vec<char>>)
    ensures
        texts(r@) == lines(s@),
{
    let parts = split_on(s, '\n');
    let ghost all = split(s@, '\n');
    let last: usize = parts.len() - 1;
    let mut r: Vec<Vec<char>> = Vec::new();
    let ghost ended = all.drop_last().map_values(|p: Seq<char>| without_return(p));
    for i in 0..last
        invariant
            last == parts@.len() - 1,
            all == texts(parts@),
            ended == all.drop_last().map_values(|p: Seq<char>| without_return(p)),
            texts(r@) == ended.take(i as int),
    {
        let part: &Vec<char> = &parts[i];
        assert(part@ == all[i as int]);
        let end: usize = if part.len() > 0 && part[part.len() - 1] == '\r' {
            part.len() - 1
        } else {
            part.len()
        };
        let line = part_of(part.as_slice(), 0, end);
        assert(line@ =~= ended[i as int]);
        let ghost before = texts(r@);
        r.push(line);
        assert(texts(r@) =~= before.push(line@));
        assert(ended.take(i + 1) =~= ended.take(i as int).push(ended[i as int]));
    }
    assert(ended.take(last as int) =~= ended);
    assert(all.last() == parts@[last as int]@);
    if parts[last].len() > 0 {
        let line = part_of(parts[last].as_slice(), 0, parts[last].len());
        assert(line@ =~= all.last());
        let ghost before = texts(r@);
        r.push(line);
        assert(texts(r@) =~= before.push(line@));
    }
    r
}

/// The characters from `from` up to `to`.
pub fn part_of(s: &[char], from: usize, to: usize) -> (r: Vec<char>)
    requires
        from <= to <= s@.len(),
    ensures
        r@ == s@.subrange(from as int, to as int),
{
    let mut r: Vec<char> = Vec::new();
    for i in from..to
        invariant
            from <= i <= to <= s@.len(),
            r@ == s@.subrange(from as int, i as int),
    {
        r.push(s[i]);
        assert(s@.subrange(from as int, i + 1) =~= s@.subrange(from as int, i as int).push(
            s@[i as int],
        ));
    }
    r
}

/// The text without the white space around it.
pub fn trim(s: &[char]) -> (r: Vec<char>)
    ensures
        r@ == trimmed(s@),
{
    let mut from: usize = 0;
    assert(s@.skip(0) =~= s@);
    while from < s.len() && is_whitespace(s[from])
        invariant
            from <= s@.len(),
            trim_start(s@) == trim_start(s@.skip(from as int)),
        decreases s@.len() - from,
    {
        assert(s@.skip(from as int).skip(1) =~= s@.skip(from + 1));
        from = from + 1;
    }
    let ghost start = s@.skip(from as int);
    assert(trim_start(s@) == start);
    let mut to: usize = s.len();
    assert(s@.subrange(from as int, to as int) =~= start);
    while to > from && is_whitespace(s[to - 1])
        invariant
            from <= to <= s@.len(),
            trim_end(start) == trim_end(s@.subrange(from as int, to as int)),
        decreases to,
    {
        assert(s@.subrange(from as int, to as int).drop_last() =~= s@.subrange(
            from as int,
            to - 1,
        ));
        to = to - 1;
    }
    part_of(s, from, to)
}

/// The words of a text.
pub fn words_of(s: &[char]) -> (r: Vec<Vec<char>>)
    ensures
        texts(r@) == words(s@),
{
    let mut r: Vec<Vec<char>> = Vec::new();
    let mut current: Vec<char> = Vec::new();
    assert(s@.take(0) =~= Seq::<char>::empty());
    assert(texts(r@) =~= words(s@.take(0)));
    for i in 0..s.len()
        invariant
            current@.len() == 0 ==> texts(r@) == words(s@.take(i as int)),
            current@.len() > 0 ==> texts(r@).push(current@) == words(s@.take(i as int)),
            (current@.len() > 0) == (i > 0 && !whitespace(s@[i - 1])),
    {
        let c: char = s[i];
        let ghost so_far = s@.take(i + 1);
        let ghost before = texts(r@);
        let ghost word = current@;
        assert(so_far.drop_last() =~= s@.take(i as int));
        assert(so_far.last() == c);
        if is_whitespace(c) {
            if current.len() > 0 {
                r.push(current);
                current = Vec::new();
                assert(texts(r@) =~= before.push(word));
            }
        } else {
            current.push(c);
            proof {
                if i > 0 {
                    assert(so_far[so_far.len() - 2] == s@[i - 1]);
                }
                if word.len() > 0 {
                    assert(before.push(word).drop_last() =~= before);
                } else {
                    assert(current@ =~= seq![c]);
                }
            }
        }
    }
    assert(s@.take(s@.len() as int) =~= s@);
    if current.len() > 0 {
        let ghost before = texts(r@);
        let ghost word = current@;
        r.push(current);
        assert(texts(r@) =~= before.push(word));
    }
    r
}

/// At most the first `n` characters of a text.
pub fn first_chars(s: &str, n: usize) -> (r: String)
    ensures
        r@ == first(s@, n as nat),
{
    let v = chars_of(s);
    if v.len() <= n {
        return s.to_owned();
    }
    let part = part_of(v.as_slice(), 0, n);
    assert(part@ =~= s@.take(n as int));
    string_of(part.as_slice())
}

/// What `String::from_utf8_lossy` makes of bytes: their text, with the
/// replacement character wherever they are no UTF-8.
pub uninterp spec fn lossy(bytes: Seq<u8>) -> Seq<char>;

/// `String::from_utf8_lossy` depends on the bytes alone, and is their text where
/// they are UTF-8.
#[verifier::external_body]
pub(crate) fn lossy_text(bytes: &[u8]) -> (r: String)
    ensures
        r@ == lossy(bytes@),
        vstd::utf8::valid_utf8(bytes@) ==> r@ == vstd::utf8::decode_utf8(bytes@),
{
    String::from_utf8_lossy(bytes).into_owned()
}

/// `String::from_utf8` is the bytes' text where they are UTF-8, and an error
/// where they are not.
#[verifier::external_body]
pub(crate) fn utf8_text(bytes: Vec<u8>) -> (r: Option<String>)
    ensures
        match r {
            Some(s) => vstd::utf8::valid_utf8(bytes@) && s@ == vstd::utf8::decode_utf8(bytes@),
            None => !vstd::utf8::valid_utf8(bytes@),
        },
{
    String::from_utf8(bytes).ok()
}

/// What `str::escape_debug` makes of a text: the same text with quotes,
/// backslashes and characters that do not print written as escapes.
pub uninterp spec fn debug_escaped(s: Seq<char>) -> Seq<char>;

/// `str::escape_debug` depends on the text alone.
#[verifier::external_body]
pub(crate) fn escape_debug_text(s: &str) -> (r: String)
    ensures
        r@ == debug_escaped(s@),
{
    s.escape_debug().to_string()
}

/// How a text is written in quotes for a programmer, by its `Debug` form.
pub uninterp spec fn debug_quoted(s: Seq<char>) -> Seq<char>;

/// A text's `Debug` form depends on the text alone.
#[verifier::external_body]
pub(crate) fn quote_debug(s: &str) -> (r: String)
    ensures
        r@ == debug_quoted(s@),
{
    format!("{s:?}")
}

/// Appends a text.
pub fn push_text(out: &mut String, part: &str)
    ensures
        final(out)@ == old(out)@ + part@,
{
    out.append(part);
}

/// Appends a slice of characters.
pub fn push_chars(out: &mut String, part: &[char])
    ensures
        final(out)@ == old(out)@ + part@,
{
    out.append(string_of(part).as_str());
}

/// Making letters small touches the ASCII capitals and nothing else.
pub proof fn only_ascii_capitals_are_made_small(s: Seq<char>, c: char, i: int)
    ensures
        'A' <= c && c <= 'Z' ==> lower(c) as u32 == c as u32 + 32,
        !('A' <= c && c <= 'Z') ==> lower(c) == c,
        lowered(s).len() == s.len(),
        0 <= i < s.len() ==> lowered(s)[i] == lower(s[i]),
{
}

/// A text begins, ends or stands where it was put.
pub proof fn a_part_is_found_where_it_stands(a: Seq<char>, part: Seq<char>, b: Seq<char>)
    ensures
        occurs_at(a + part + b, part, a.len() as int),
        contains(a + part + b, part),
        starts_with(part + b, part),
        ends_with(a + part, part),
{
    let s = a + part + b;
    assert(s.subrange(a.len() as int, (a.len() + part.len()) as int) =~= part);
    assert(occurs_at(s, part, a.len() as int));
    assert((part + b).subrange(0, part.len() as int) =~= part);
    assert((a + part).subrange(a.len() as int, (a + part).len() as int) =~= part);
}

/// A text that was found to begin, to end or to stand somewhere does.
pub proof fn a_part_that_is_found_is_there(s: Seq<char>, part: Seq<char>)
    ensures
        starts_with(s, part) ==> part.len() <= s.len() && s == part + s.skip(part.len() as int),
        ends_with(s, part) ==> part.len() <= s.len() && s == s.take(s.len() - part.len()) + part,
        contains(s, part) ==> part.len() <= s.len(),
{
    if starts_with(s, part) {
        assert(s.subrange(0, part.len() as int) == part);
        assert(s =~= s.subrange(0, part.len() as int) + s.skip(part.len() as int));
    }
    if ends_with(s, part) {
        assert(s =~= s.take(s.len() - part.len()) + s.subrange(
            s.len() - part.len(),
            s.len() as int,
        ));
    }
}

/// The control characters are those below the space, and those from the delete on to
/// where Latin-1 begins to print.
pub proof fn which_characters_are_control_characters(c: char)
    ensures
        control(c) <==> (c as u32) < 32 || (127 <= (c as u32) && (c as u32) < 160),
{
}

/// A text holds a control character if one of its characters is one.
pub proof fn one_control_character_is_enough(s: Seq<char>, c: char)
    ensures
        !has_control(Seq::empty()),
        has_control(s.push(c)) <==> has_control(s) || control(c),
{
    let more = s.push(c);
    if has_control(s) {
        let i = choose|i: int| 0 <= i < s.len() && control(#[trigger] s[i]);
        assert(control(more[i]));
    }
    if control(c) {
        assert(control(more[s.len() as int]));
    }
    if has_control(more) {
        let i = choose|i: int| 0 <= i < more.len() && control(#[trigger] more[i]);
        if i < s.len() {
            assert(control(s[i]));
        }
    }
}

/// Spaces, tabs, line ends and the wider spaces are white space; letters, digits and
/// signs are not.
pub proof fn which_characters_are_white_space(c: char)
    ensures
        c == ' ' || c == '\t' || c == '\n' || c == '\r' || c == '\u{b}' || c == '\u{c}' ==> whitespace(c),
        c == '\u{85}' || c == '\u{a0}' || c == '\u{1680}' || c == '\u{2028}' || c == '\u{2029}' || c
            == '\u{202f}' || c == '\u{205f}' || c == '\u{3000}' ==> whitespace(c),
        '\u{2000}' <= c && c <= '\u{200a}' ==> whitespace(c),
        '!' <= c && c <= '~' ==> !whitespace(c),
        c == '\u{200b}' || c == '\u{feff}' || c == '\u{180e}' ==> !whitespace(c),
        (c as u32) > 0x3000 ==> !whitespace(c),
{
}

/// A numeral has no leading zero, and numerals of different numbers differ.
pub proof fn a_numeral_is_unique(n: nat, m: nat)
    ensures
        n > 0 ==> digits(n)[0] != '0',
        n != m ==> digits(n) != digits(m),
{
    lemma_digits(n);
    lemma_digits(m);
    lemma_no_leading_zero(n);
}

proof fn lemma_no_leading_zero(n: nat)
    ensures
        n > 0 ==> digits(n)[0] != '0',
    decreases n,
{
    if n >= 10 {
        lemma_no_leading_zero(n / 10);
        lemma_digits(n / 10);
        assert(digits(n)[0] == digits(n / 10)[0]);
    }
}

/// A numeral denotes ten times what stands before its last digit, and that digit.
pub proof fn a_digit_counts_for_ten_times_the_next(s: Seq<char>, c: char)
    requires
        '0' <= c && c <= '9',
    ensures
        value(s.push(c)) == 10 * value(s) + (c as nat - 48),
        value(Seq::empty()) == 0,
{
    assert(s.push(c).drop_last() =~= s);
}

/// A number may have a plus sign before it and nothing else around it; a bound leaves out
/// what is above it.
pub proof fn which_texts_are_numbers(s: Seq<char>, n: nat, limit: nat)
    ensures
        number(seq!['+'] + digits(n)) == Some(n),
        number(digits(n)) == Some(n),
        number(seq!['-'] + s) is None,
        number(Seq::empty()) is None,
        number(seq!['+']) is None,
        n <= limit ==> number_within(digits(n), limit) == Some(n),
        n > limit ==> number_within(digits(n), limit) is None,
        number_within(s, limit) is Some ==> number(s) == number_within(s, limit) && number(s)->0
            <= limit,
{
    lemma_digits(n);
    a_rendered_number_reads_back(n);
    assert((seq!['+'] + digits(n)).skip(1) =~= digits(n));
    assert(seq!['+'].skip(1) =~= Seq::<char>::empty());
    let minus = seq!['-'] + s;
    assert(minus[0] == '-');
    assert(!is_digit(minus[0]));
}

/// A text with a separator comes apart there and nowhere else.
pub proof fn a_text_comes_apart_at_its_separators(s: Seq<char>, separator: char, c: char)
    ensures
        split(Seq::empty(), separator) == seq![Seq::<char>::empty()],
        split(s.push(separator), separator) == split(s, separator).push(Seq::empty()),
        c != separator ==> ({
            let before = split(s, separator);
            let after = split(s.push(c), separator);
            &&& after.len() == before.len()
            &&& after.drop_last() == before.drop_last()
            &&& after.last() == before.last().push(c)
        }),
{
    lemma_split_first(s, separator);
    assert(s.push(separator).drop_last() =~= s);
    assert(s.push(c).drop_last() =~= s);
    if c != separator {
        let before = split(s, separator);
        let after = split(s.push(c), separator);
        assert(after.drop_last() =~= before.drop_last());
    }
}

/// A line ends at a line feed, together with a carriage return before it; what follows
/// the last line feed is a line if there is anything.
pub proof fn a_line_ends_at_its_line_feed(line: Seq<char>)
    requires
        !line.contains('\n'),
    ensures
        line.len() > 0 ==> lines(line) == seq![line],
        lines(line.push('\n')) == seq![without_return(line)],
        lines(Seq::empty()) == Seq::<Seq<char>>::empty(),
        without_return(line.push('\r')) == line,
        line.len() > 0 && line.last() != '\r' ==> without_return(line) == line,
{
    lemma_no_separator(line, '\n');
    assert(line.push('\n').drop_last() =~= line);
    assert(line.push('\r').drop_last() =~= line);
    assert(split(line.push('\n'), '\n') =~= seq![line, Seq::<char>::empty()]);
    assert(split(line.push('\n'), '\n').drop_last() =~= seq![line]);
    assert(lines(line.push('\n')) =~= seq![without_return(line)]);
    assert(split(line, '\n').drop_last() =~= Seq::<Seq<char>>::empty());
    if line.len() > 0 {
        assert(lines(line) =~= seq![line]);
    }
    let none = split(Seq::<char>::empty(), '\n');
    assert(none =~= seq![Seq::<char>::empty()]);
    assert(lines(Seq::empty()) =~= Seq::<Seq<char>>::empty());
}

proof fn lemma_no_separator(s: Seq<char>, separator: char)
    requires
        !s.contains(separator),
    ensures
        split(s, separator) == seq![s],
{
    lemma_split_first(s, separator);
    if split(s, separator).len() > 1 {
        assert(s.contains(s[split(s, separator)[0].len() as int]));
    }
    assert(split(s, separator) =~= seq![s]);
}

/// Trimming takes away the white space at both ends and nothing else.
pub proof fn trimming_takes_away_white_space_at_the_ends(s: Seq<char>)
    ensures
        exists|from: int, to: int|
            0 <= from <= to <= s.len() && trimmed(s) == #[trigger] s.subrange(from, to) && (forall|
                i: int,
            |
                0 <= i < from ==> whitespace(#[trigger] s[i])) && (forall|i: int|
                to <= i < s.len() ==> whitespace(#[trigger] s[i])),
        trimmed(s).len() > 0 ==> !whitespace(trimmed(s)[0]) && !whitespace(trimmed(s).last()),
{
    lemma_trim_start(s);
    let t = trim_start(s);
    lemma_trim_end(t);
    let from = s.len() - t.len();
    let to = from + trim_end(t).len();
    assert(trimmed(s) =~= s.subrange(from, to));
    assert forall|i: int| to <= i < s.len() implies whitespace(#[trigger] s[i]) by {
        assert(t[i - from] == s[i]);
    }
    if trimmed(s).len() > 0 {
        assert(trimmed(s)[0] == t[0]);
    }
}

proof fn lemma_trim_start(s: Seq<char>)
    ensures
        trim_start(s).len() <= s.len(),
        trim_start(s) == s.skip(s.len() - trim_start(s).len()),
        forall|i: int| 0 <= i < s.len() - trim_start(s).len() ==> whitespace(#[trigger] s[i]),
        trim_start(s).len() > 0 ==> !whitespace(trim_start(s)[0]),
    decreases s.len(),
{
    if s.len() > 0 && whitespace(s[0]) {
        let rest = s.skip(1);
        lemma_trim_start(rest);
        let n = s.len() - trim_start(s).len();
        assert(rest.skip(n - 1) =~= s.skip(n));
        assert forall|i: int| 0 <= i < n implies whitespace(#[trigger] s[i]) by {
            if i > 0 {
                assert(rest[i - 1] == s[i]);
            }
        }
    } else {
        assert(s.skip(0) =~= s);
    }
}

proof fn lemma_trim_end(s: Seq<char>)
    ensures
        trim_end(s).len() <= s.len(),
        trim_end(s) == s.take(trim_end(s).len() as int),
        forall|i: int| trim_end(s).len() <= i < s.len() ==> whitespace(#[trigger] s[i]),
        trim_end(s).len() > 0 ==> !whitespace(trim_end(s).last()),
    decreases s.len(),
{
    if s.len() > 0 && whitespace(s.last()) {
        let d = s.drop_last();
        lemma_trim_end(d);
        let n = trim_end(s).len() as int;
        assert(d.take(n) =~= s.take(n));
        assert forall|i: int| n <= i < s.len() implies whitespace(#[trigger] s[i]) by {
            if i < d.len() {
                assert(d[i] == s[i]);
            }
        }
    } else {
        assert(s.take(s.len() as int) =~= s);
    }
}

/// A word ends at white space, and white space is part of no word.
pub proof fn a_word_ends_at_white_space(s: Seq<char>, c: char)
    ensures
        words(Seq::empty()) == Seq::<Seq<char>>::empty(),
        whitespace(c) ==> words(s.push(c)) == words(s),
        !whitespace(c) && (s.len() == 0 || whitespace(s.last())) ==> words(s.push(c)) == words(
            s,
        ).push(seq![c]),
        !whitespace(c) && s.len() > 0 && !whitespace(s.last()) && words(s).len() > 0 ==> words(
            s.push(c),
        ) == words(s).drop_last().push(words(s).last().push(c)),
{
    let more = s.push(c);
    assert(more.drop_last() =~= s);
    if s.len() > 0 {
        assert(more[more.len() - 2] == s.last());
    }
}

/// The beginning of a text is all of it where it is short enough, and otherwise that many
/// of its characters.
pub proof fn the_beginning_of_a_text(s: Seq<char>, n: nat)
    ensures
        s.len() <= n ==> first(s, n) == s,
        s.len() > n ==> first(s, n).len() == n && first(s, n) == s.take(n as int),
{
}

} // verus!
