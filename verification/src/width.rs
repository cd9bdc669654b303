//! Which characters may take two columns of a terminal, and where they stand in the
//! bytes that it reads.
use vstd::prelude::*;

verus! {

/// A character that may take two columns, by its number.
pub open spec fn wide(n: u32) -> bool {
    wide_symbols(n) || wide_ideographs(n) || wide_scripts(n) || wide_pictures(n)
}

/// Those of them that are jamo, and symbols of the basic plane.
pub open spec fn wide_symbols(n: u32) -> bool {
    (0x1100 <= n && n <= 0x115f) || n == 0x17a4 || n == 0x17d8
        || (0x231a <= n && n <= 0x231b) || (0x2329 <= n && n <= 0x232a)
        || (0x23e9 <= n && n <= 0x23ec) || n == 0x23f0 || n == 0x23f3
        || (0x25fd <= n && n <= 0x25fe) || (0x2614 <= n && n <= 0x2615)
        || (0x2630 <= n && n <= 0x2637) || (0x2648 <= n && n <= 0x2653) || n == 0x267f
        || (0x268a <= n && n <= 0x268f) || n == 0x2693 || n == 0x26a1
        || (0x26aa <= n && n <= 0x26ab) || (0x26bd <= n && n <= 0x26be)
        || (0x26c4 <= n && n <= 0x26c5) || n == 0x26ce || n == 0x26d4 || n == 0x26ea
        || (0x26f2 <= n && n <= 0x26f3) || n == 0x26f5 || n == 0x26fa || n == 0x26fd
        || n == 0x2705 || (0x270a <= n && n <= 0x270b) || n == 0x2728 || n == 0x274c
        || n == 0x274e || (0x2753 <= n && n <= 0x2755) || n == 0x2757
        || (0x2795 <= n && n <= 0x2797) || n == 0x27b0 || n == 0x27bf
        || (0x2b1b <= n && n <= 0x2b1c) || n == 0x2b50 || n == 0x2b55
}

/// Those of them that are ideographs, syllables and full-width forms of the basic plane.
pub open spec fn wide_ideographs(n: u32) -> bool {
    (0x2e80 <= n && n <= 0x2e99) || (0x2e9b <= n && n <= 0x2ef3)
        || (0x2f00 <= n && n <= 0x2fd5) || (0x2ff0 <= n && n <= 0x3029)
        || (0x3030 <= n && n <= 0x303e) || (0x3041 <= n && n <= 0x3096)
        || (0x309b <= n && n <= 0x30ff) || (0x3105 <= n && n <= 0x312f)
        || (0x3131 <= n && n <= 0x3163) || (0x3165 <= n && n <= 0x318e)
        || (0x3190 <= n && n <= 0x31e5) || (0x31ef <= n && n <= 0x321e)
        || (0x3220 <= n && n <= 0x3247) || (0x3250 <= n && n <= 0xa48c)
        || (0xa490 <= n && n <= 0xa4c6) || (0xa960 <= n && n <= 0xa97c)
        || (0xac00 <= n && n <= 0xd7a3) || (0xf900 <= n && n <= 0xfaff)
        || (0xfe10 <= n && n <= 0xfe19) || (0xfe30 <= n && n <= 0xfe52)
        || (0xfe54 <= n && n <= 0xfe66) || (0xfe68 <= n && n <= 0xfe6b)
        || (0xff01 <= n && n <= 0xff60) || (0xffe0 <= n && n <= 0xffe6)
}

/// Those of them that are further scripts.
pub open spec fn wide_scripts(n: u32) -> bool {
    (0x16fe0 <= n && n <= 0x16fe3) || (0x16ff2 <= n && n <= 0x16ff6)
        || (0x17000 <= n && n <= 0x18cda) || (0x18cff <= n && n <= 0x18d20)
        || (0x18d80 <= n && n <= 0x18df2) || (0x18e00 <= n && n <= 0x19191)
        || (0x191a0 <= n && n <= 0x191d2) || (0x1aff0 <= n && n <= 0x1aff3)
        || (0x1aff5 <= n && n <= 0x1affb) || (0x1affd <= n && n <= 0x1affe)
        || (0x1b000 <= n && n <= 0x1b128) || n == 0x1b132 || (0x1b150 <= n && n <= 0x1b152)
        || n == 0x1b155 || (0x1b164 <= n && n <= 0x1b168) || (0x1b170 <= n && n <= 0x1b2fb)
        || (0x1d300 <= n && n <= 0x1d356) || (0x1d360 <= n && n <= 0x1d376)
}

/// Those of them that are pictures, and ideographs beyond the basic plane.
pub open spec fn wide_pictures(n: u32) -> bool {
    n == 0x1f004 || n == 0x1f0cf || n == 0x1f18e || (0x1f191 <= n && n <= 0x1f19a)
        || n == 0x1f1ae || (0x1f200 <= n && n <= 0x1f202) || (0x1f210 <= n && n <= 0x1f23b)
        || (0x1f240 <= n && n <= 0x1f248) || (0x1f250 <= n && n <= 0x1f251)
        || (0x1f260 <= n && n <= 0x1f265) || (0x1f300 <= n && n <= 0x1f320)
        || (0x1f32d <= n && n <= 0x1f335) || (0x1f337 <= n && n <= 0x1f37c)
        || (0x1f37e <= n && n <= 0x1f393) || (0x1f3a0 <= n && n <= 0x1f3ca)
        || (0x1f3cf <= n && n <= 0x1f3d3) || (0x1f3e0 <= n && n <= 0x1f3f0) || n == 0x1f3f4
        || (0x1f3f8 <= n && n <= 0x1f43e) || n == 0x1f440 || (0x1f442 <= n && n <= 0x1f4fc)
        || (0x1f4ff <= n && n <= 0x1f53d) || (0x1f54b <= n && n <= 0x1f54e)
        || (0x1f550 <= n && n <= 0x1f567) || n == 0x1f57a || (0x1f595 <= n && n <= 0x1f596)
        || n == 0x1f5a4 || (0x1f5fb <= n && n <= 0x1f64f) || (0x1f680 <= n && n <= 0x1f6c5)
        || n == 0x1f6cc || (0x1f6d0 <= n && n <= 0x1f6d2) || (0x1f6d5 <= n && n <= 0x1f6d9)
        || (0x1f6dc <= n && n <= 0x1f6df) || (0x1f6eb <= n && n <= 0x1f6ec)
        || (0x1f6f4 <= n && n <= 0x1f6fc) || n == 0x1f7da || (0x1f7e0 <= n && n <= 0x1f7eb)
        || n == 0x1f7f0 || (0x1f90c <= n && n <= 0x1f93a) || (0x1f93c <= n && n <= 0x1f945)
        || (0x1f947 <= n && n <= 0x1f9ff) || (0x1fa70 <= n && n <= 0x1fa7c)
        || (0x1fa80 <= n && n <= 0x1fac6) || n == 0x1fac8 || (0x1facc <= n && n <= 0x1fadd)
        || (0x1fadf <= n && n <= 0x1faeb) || (0x1faef <= n && n <= 0x1fafa)
        || (0x20000 <= n && n <= 0x2fffd) || (0x30000 <= n && n <= 0x3fffd)
}

fn is_wide_symbols(n: u32) -> (r: bool)
    ensures
        r == wide_symbols(n),
{
    (0x1100 <= n && n <= 0x115f) || n == 0x17a4 || n == 0x17d8
        || (0x231a <= n && n <= 0x231b) || (0x2329 <= n && n <= 0x232a)
        || (0x23e9 <= n && n <= 0x23ec) || n == 0x23f0 || n == 0x23f3
        || (0x25fd <= n && n <= 0x25fe) || (0x2614 <= n && n <= 0x2615)
        || (0x2630 <= n && n <= 0x2637) || (0x2648 <= n && n <= 0x2653) || n == 0x267f
        || (0x268a <= n && n <= 0x268f) || n == 0x2693 || n == 0x26a1
        || (0x26aa <= n && n <= 0x26ab) || (0x26bd <= n && n <= 0x26be)
        || (0x26c4 <= n && n <= 0x26c5) || n == 0x26ce || n == 0x26d4 || n == 0x26ea
        || (0x26f2 <= n && n <= 0x26f3) || n == 0x26f5 || n == 0x26fa || n == 0x26fd
        || n == 0x2705 || (0x270a <= n && n <= 0x270b) || n == 0x2728 || n == 0x274c
        || n == 0x274e || (0x2753 <= n && n <= 0x2755) || n == 0x2757
        || (0x2795 <= n && n <= 0x2797) || n == 0x27b0 || n == 0x27bf
        || (0x2b1b <= n && n <= 0x2b1c) || n == 0x2b50 || n == 0x2b55
}

fn is_wide_ideographs(n: u32) -> (r: bool)
    ensures
        r == wide_ideographs(n),
{
    (0x2e80 <= n && n <= 0x2e99) || (0x2e9b <= n && n <= 0x2ef3)
        || (0x2f00 <= n && n <= 0x2fd5) || (0x2ff0 <= n && n <= 0x3029)
        || (0x3030 <= n && n <= 0x303e) || (0x3041 <= n && n <= 0x3096)
        || (0x309b <= n && n <= 0x30ff) || (0x3105 <= n && n <= 0x312f)
        || (0x3131 <= n && n <= 0x3163) || (0x3165 <= n && n <= 0x318e)
        || (0x3190 <= n && n <= 0x31e5) || (0x31ef <= n && n <= 0x321e)
        || (0x3220 <= n && n <= 0x3247) || (0x3250 <= n && n <= 0xa48c)
        || (0xa490 <= n && n <= 0xa4c6) || (0xa960 <= n && n <= 0xa97c)
        || (0xac00 <= n && n <= 0xd7a3) || (0xf900 <= n && n <= 0xfaff)
        || (0xfe10 <= n && n <= 0xfe19) || (0xfe30 <= n && n <= 0xfe52)
        || (0xfe54 <= n && n <= 0xfe66) || (0xfe68 <= n && n <= 0xfe6b)
        || (0xff01 <= n && n <= 0xff60) || (0xffe0 <= n && n <= 0xffe6)
}

fn is_wide_scripts(n: u32) -> (r: bool)
    ensures
        r == wide_scripts(n),
{
    (0x16fe0 <= n && n <= 0x16fe3) || (0x16ff2 <= n && n <= 0x16ff6)
        || (0x17000 <= n && n <= 0x18cda) || (0x18cff <= n && n <= 0x18d20)
        || (0x18d80 <= n && n <= 0x18df2) || (0x18e00 <= n && n <= 0x19191)
        || (0x191a0 <= n && n <= 0x191d2) || (0x1aff0 <= n && n <= 0x1aff3)
        || (0x1aff5 <= n && n <= 0x1affb) || (0x1affd <= n && n <= 0x1affe)
        || (0x1b000 <= n && n <= 0x1b128) || n == 0x1b132 || (0x1b150 <= n && n <= 0x1b152)
        || n == 0x1b155 || (0x1b164 <= n && n <= 0x1b168) || (0x1b170 <= n && n <= 0x1b2fb)
        || (0x1d300 <= n && n <= 0x1d356) || (0x1d360 <= n && n <= 0x1d376)
}

fn is_wide_pictures(n: u32) -> (r: bool)
    ensures
        r == wide_pictures(n),
{
    n == 0x1f004 || n == 0x1f0cf || n == 0x1f18e || (0x1f191 <= n && n <= 0x1f19a)
        || n == 0x1f1ae || (0x1f200 <= n && n <= 0x1f202) || (0x1f210 <= n && n <= 0x1f23b)
        || (0x1f240 <= n && n <= 0x1f248) || (0x1f250 <= n && n <= 0x1f251)
        || (0x1f260 <= n && n <= 0x1f265) || (0x1f300 <= n && n <= 0x1f320)
        || (0x1f32d <= n && n <= 0x1f335) || (0x1f337 <= n && n <= 0x1f37c)
        || (0x1f37e <= n && n <= 0x1f393) || (0x1f3a0 <= n && n <= 0x1f3ca)
        || (0x1f3cf <= n && n <= 0x1f3d3) || (0x1f3e0 <= n && n <= 0x1f3f0) || n == 0x1f3f4
        || (0x1f3f8 <= n && n <= 0x1f43e) || n == 0x1f440 || (0x1f442 <= n && n <= 0x1f4fc)
        || (0x1f4ff <= n && n <= 0x1f53d) || (0x1f54b <= n && n <= 0x1f54e)
        || (0x1f550 <= n && n <= 0x1f567) || n == 0x1f57a || (0x1f595 <= n && n <= 0x1f596)
        || n == 0x1f5a4 || (0x1f5fb <= n && n <= 0x1f64f) || (0x1f680 <= n && n <= 0x1f6c5)
        || n == 0x1f6cc || (0x1f6d0 <= n && n <= 0x1f6d2) || (0x1f6d5 <= n && n <= 0x1f6d9)
        || (0x1f6dc <= n && n <= 0x1f6df) || (0x1f6eb <= n && n <= 0x1f6ec)
        || (0x1f6f4 <= n && n <= 0x1f6fc) || n == 0x1f7da || (0x1f7e0 <= n && n <= 0x1f7eb)
        || n == 0x1f7f0 || (0x1f90c <= n && n <= 0x1f93a) || (0x1f93c <= n && n <= 0x1f945)
        || (0x1f947 <= n && n <= 0x1f9ff) || (0x1fa70 <= n && n <= 0x1fa7c)
        || (0x1fa80 <= n && n <= 0x1fac6) || n == 0x1fac8 || (0x1facc <= n && n <= 0x1fadd)
        || (0x1fadf <= n && n <= 0x1faeb) || (0x1faef <= n && n <= 0x1fafa)
        || (0x20000 <= n && n <= 0x2fffd) || (0x30000 <= n && n <= 0x3fffd)
}

/// Whether a character may take two columns, by its number.
pub fn is_wide(n: u32) -> (r: bool)
    ensures
        r == wide(n),
{
    is_wide_symbols(n) || is_wide_ideographs(n) || is_wide_scripts(n) || is_wide_pictures(n)
}

/// A byte that continues a character in UTF-8.
pub open spec fn continues(b: u8) -> bool {
    0x80 <= b <= 0xbf
}

/// Three bytes that are a wide character in UTF-8.
pub open spec fn wide_three(a: u8, b: u8, c: u8) -> bool {
    0xe1 <= a <= 0xef && continues(b) && continues(c) && wide(
        ((a - 0xe0) * 0x1000 + (b - 0x80) * 0x40 + (c - 0x80)) as u32,
    )
}

/// Four bytes that are a wide character in UTF-8.
pub open spec fn wide_four(a: u8, b: u8, c: u8, d: u8) -> bool {
    0xf0 <= a <= 0xf4 && continues(b) && continues(c) && continues(d) && wide(
        ((a - 0xf0) * 0x4_0000 + (b - 0x80) * 0x1000 + (c - 0x80) * 0x40 + (d - 0x80)) as u32,
    )
}

/// The bytes end with a wide character.
pub open spec fn completes(s: Seq<u8>) -> bool {
    let n = s.len() as int;
    ||| n >= 3 && wide_three(s[n - 3], s[n - 2], s[n - 1])
    ||| n >= 4 && wide_four(s[n - 4], s[n - 3], s[n - 2], s[n - 1])
}

/// A wide character stands somewhere in the bytes.
pub open spec fn has_wide(s: Seq<u8>) -> bool {
    exists|n: int| 0 <= n <= s.len() && #[trigger] completes(s.take(n))
}

/// The last bytes, up to three: all that decides whether another byte completes a
/// wide character.
pub open spec fn recent(s: Seq<u8>) -> Seq<u8> {
    if s.len() <= 3 {
        s
    } else {
        s.skip(s.len() - 3)
    }
}

/// The bytes that are read behind others where no wide character may be: without
/// each that would complete one.
pub open spec fn sifted(before: Seq<u8>, bytes: Seq<u8>) -> Seq<u8>
    decreases bytes.len(),
{
    if bytes.len() == 0 {
        Seq::empty()
    } else {
        let kept = sifted(before, bytes.drop_last());
        if completes((before + kept).push(bytes.last())) {
            kept
        } else {
            kept.push(bytes.last())
        }
    }
}

/// Another byte adds a wide character exactly if it completes one.
pub(crate) proof fn lemma_has_wide_push(s: Seq<u8>, b: u8)
    ensures
        has_wide(s.push(b)) == (has_wide(s) || completes(s.push(b))),
{
    let more = s.push(b);
    assert(more.take(more.len() as int) =~= more);
    if has_wide(s) {
        let n = choose|n: int| 0 <= n <= s.len() && #[trigger] completes(s.take(n));
        assert(more.take(n) =~= s.take(n));
    }
    if has_wide(more) {
        let n = choose|n: int| 0 <= n <= more.len() && #[trigger] completes(more.take(n));
        if n <= s.len() {
            assert(more.take(n) =~= s.take(n));
            assert(completes(s.take(n)));
        } else {
            assert(more.take(n) =~= more);
        }
    }
}

/// There is no wide character in no bytes.
pub(crate) proof fn lemma_empty_has_no_wide()
    ensures
        !has_wide(Seq::<u8>::empty()),
{
    assert forall|n: int| 0 <= n <= 0 implies !#[trigger] completes(
        Seq::<u8>::empty().take(n),
    ) by {}
}

/// Whether another byte completes a wide character, by the last bytes before it.
pub(crate) fn completing(last: &Vec<u8>, b: u8, Ghost(s): Ghost<Seq<u8>>) -> (r: bool)
    requires
        last@ == recent(s),
    ensures
        r == completes(s.push(b)),
{
    let n: usize = last.len();
    assert(n == s.len() || n == 3);
    if b < 0x80 || b > 0xbf {
        return false;
    }
    if n >= 2 && is_three(last[n - 2], last[n - 1], b) {
        return true;
    }
    n >= 3 && is_four(last[n - 3], last[n - 2], last[n - 1], b)
}

fn is_three(a: u8, b: u8, c: u8) -> (r: bool)
    ensures
        r == wide_three(a, b, c),
{
    if a < 0xe1 || a > 0xef || b < 0x80 || b > 0xbf || c < 0x80 || c > 0xbf {
        return false;
    }
    is_wide((a as u32 - 0xe0) * 0x1000 + (b as u32 - 0x80) * 0x40 + (c as u32 - 0x80))
}

fn is_four(a: u8, b: u8, c: u8, d: u8) -> (r: bool)
    ensures
        r == wide_four(a, b, c, d),
{
    if a < 0xf0 || a > 0xf4 || b < 0x80 || b > 0xbf || c < 0x80 || c > 0xbf || d < 0x80 || d
        > 0xbf {
        return false;
    }
    is_wide(
        (a as u32 - 0xf0) * 0x4_0000 + (b as u32 - 0x80) * 0x1000 + (c as u32 - 0x80) * 0x40 + (
        d as u32 - 0x80),
    )
}

fn remember(last: &mut Vec<u8>, b: u8, Ghost(s): Ghost<Seq<u8>>)
    requires
        old(last)@ == recent(s),
    ensures
        final(last)@ == recent(s.push(b)),
{
    if last.len() == 3 {
        let _ = last.remove(0);
    }
    last.push(b);
    assert(last@ =~= recent(s.push(b)));
}

/// Follows bytes that are read behind others: keeps the last of them, and returns
/// whether a wide character was completed.
pub(crate) fn follow(last: &mut Vec<u8>, bytes: &[u8], Ghost(s): Ghost<Seq<u8>>) -> (r: bool)
    requires
        old(last)@ == recent(s),
    ensures
        final(last)@ == recent(s + bytes@),
        has_wide(s + bytes@) == (has_wide(s) || r),
{
    let mut met: bool = false;
    assert(s + bytes@.take(0) =~= s);
    for i in 0..bytes.len()
        invariant
            last@ == recent(s + bytes@.take(i as int)),
            has_wide(s + bytes@.take(i as int)) == (has_wide(s) || met),
    {
        let ghost here = s + bytes@.take(i as int);
        let b: u8 = bytes[i];
        proof {
            lemma_has_wide_push(here, b);
            assert(s + bytes@.take(i + 1) =~= here.push(b));
        }
        if completing(last, b, Ghost(here)) {
            met = true;
        }
        remember(last, b, Ghost(here));
    }
    assert(bytes@.take(bytes@.len() as int) =~= bytes@);
    met
}

/// Drops each byte that would complete a wide character behind others.
pub(crate) fn sift(last: &Vec<u8>, bytes: &[u8], Ghost(s): Ghost<Seq<u8>>) -> (r: Vec<u8>)
    requires
        last@ == recent(s),
    ensures
        r@ == sifted(s, bytes@),
        !has_wide(s) ==> !has_wide(s + r@),
{
    let mut tail: Vec<u8> = Vec::new();
    for i in 0..last.len()
        invariant
            tail@ == last@.take(i as int),
    {
        tail.push(last[i]);
        assert(last@.take(i + 1) =~= last@.take(i as int).push(last@[i as int]));
    }
    assert(last@.take(last@.len() as int) =~= last@);
    let mut kept: Vec<u8> = Vec::new();
    assert(s + kept@ =~= s);
    for i in 0..bytes.len()
        invariant
            tail@ == recent(s + kept@),
            kept@ == sifted(s, bytes@.take(i as int)),
            !has_wide(s) ==> !has_wide(s + kept@),
    {
        let ghost here = s + kept@;
        let b: u8 = bytes[i];
        proof {
            assert(bytes@.take(i + 1).drop_last() =~= bytes@.take(i as int));
            assert(bytes@.take(i + 1).last() == b);
            lemma_has_wide_push(here, b);
        }
        if !completing(&tail, b, Ghost(here)) {
            remember(&mut tail, b, Ghost(here));
            kept.push(b);
            assert(s + kept@ =~= here.push(b));
        }
    }
    assert(bytes@.take(bytes@.len() as int) =~= bytes@);
    kept
}

/// Bytes are dropped only where they would complete a wide character: what holds
/// none is read as it is.
pub proof fn narrow_bytes_pass(before: Seq<u8>, bytes: Seq<u8>)
    requires
        !has_wide(before + bytes),
    ensures
        sifted(before, bytes) == bytes,
    decreases bytes.len(),
{
    if bytes.len() > 0 {
        let rest = bytes.drop_last();
        assert(before + bytes =~= (before + rest).push(bytes.last()));
        lemma_has_wide_push(before + rest, bytes.last());
        narrow_bytes_pass(before, rest);
        assert(rest.push(bytes.last()) =~= bytes);
    }
}

/// Nothing that takes fewer than three bytes in UTF-8 is wide; ideographs, syllables,
/// full-width forms and pictures are, and letters, box drawing, arrows and braille are
/// not.
pub proof fn which_characters_are_wide(n: u32)
    ensures
        n < 0x1100 ==> !wide(n),
        0x3400 <= n <= 0x4dbf || 0x4e00 <= n <= 0x9fff ==> wide(n),
        0xac00 <= n <= 0xd7a3 ==> wide(n),
        0x3041 <= n <= 0x3096 || 0x30a0 <= n <= 0x30ff ==> wide(n),
        0xff01 <= n <= 0xff60 ==> wide(n),
        0x1f600 <= n <= 0x1f64f || 0x1f300 <= n <= 0x1f320 ==> wide(n),
        0x20000 <= n <= 0x2fffd || 0x30000 <= n <= 0x3fffd ==> wide(n),
        0x2500 <= n <= 0x25fc || 0x2190 <= n <= 0x2319 || 0x2800 <= n <= 0x28ff ==> !wide(n),
        0xff61 <= n <= 0xffdf || 0xe000 <= n <= 0xf8ff ==> !wide(n),
        0x10000 <= n <= 0x16fdf || n >= 0x40000 ==> !wide(n),
{
}

/// The bytes of a character end with a wide character exactly if the character is wide.
pub proof fn a_wide_character_is_found_in_its_bytes(c: char)
    ensures
        completes(vstd::utf8::encode_scalar(c as u32)) <==> wide(c as u32),
{
    let n = c as u32;
    let s = vstd::utf8::encode_scalar(n);
    which_characters_are_wide(n);
    assert((n & 0x3f) == n % 64 && ((n >> 6) & 0x3f) == (n / 64) % 64 && ((n >> 12) & 0x3f) == (n
        / 4096) % 64) by (bit_vector);
    assert(forall|v: u8| v < 64 ==> #[trigger] (0x80u8 | v) == 0x80u8 + v) by (bit_vector);
    let y = ((n >> 6) & 0x3f) as u8;
    let z = (n & 0x3f) as u8;
    assert((0x80u8 | y) == 0x80 + y && (0x80u8 | z) == 0x80 + z);
    if n > 0x7ff && n <= 0xffff {
        assert(s.len() == 3);
        assert(n <= 0xffff ==> ((n >> 12) & 0x0f) == n / 4096) by (bit_vector);
        assert(forall|v: u8| v < 16 ==> #[trigger] (0xe0u8 | v) == 0xe0u8 + v) by (bit_vector);
        let x = ((n >> 12) & 0x0f) as u8;
        assert((0xe0u8 | x) == 0xe0 + x);
        assert(s[0] == 0xe0 + x && s[1] == 0x80 + y && s[2] == 0x80 + z);
        assert(x * 0x1000 + y * 0x40 + z == n);
    } else if n > 0xffff {
        assert(s.len() == 4);
        assert(n <= 0x10ffff);
        assert(n <= 0x10ffff ==> ((n >> 18) & 0x7) == n / 0x4_0000) by (bit_vector);
        assert(forall|v: u8| v < 8 ==> #[trigger] (0xf0u8 | v) == 0xf0u8 + v) by (bit_vector);
        let w = ((n >> 18) & 0x7) as u8;
        let x = ((n >> 12) & 0x3f) as u8;
        assert((0xf0u8 | w) == 0xf0 + w);
        assert((0x80u8 | x) == 0x80 + x);
        assert(s[0] == 0xf0 + w && s[1] == 0x80 + x && s[2] == 0x80 + y && s[3] == 0x80 + z);
        assert(w * 0x4_0000 + x * 0x1000 + y * 0x40 + z == n);
    }
}

/// Where no wide character may be read none is, and nothing is read that was not there.
pub proof fn sifting_leaves_no_wide_character(before: Seq<u8>, bytes: Seq<u8>)
    requires
        !has_wide(before),
    ensures
        !has_wide(before + sifted(before, bytes)),
        sifted(before, bytes).len() <= bytes.len(),
    decreases bytes.len(),
{
    if bytes.len() == 0 {
        assert(before + sifted(before, bytes) =~= before);
    } else {
        let kept = sifted(before, bytes.drop_last());
        sifting_leaves_no_wide_character(before, bytes.drop_last());
        lemma_has_wide_push(before + kept, bytes.last());
        assert(before + kept.push(bytes.last()) =~= (before + kept).push(bytes.last()));
    }
}

} // verus!
