//! The identifiers that tmux uses on the wire.
use vstd::prelude::*;
use crate::text;

verus! {

/// A tmux pane, `%` and its number on the wire.
#[derive(Clone, Copy, Debug, PartialEq, Eq, Structural, Hash, PartialOrd, Ord)]
pub struct PaneId(pub u32);

/// A tmux window, `@` and its number on the wire.
#[derive(Clone, Copy, Debug, PartialEq, Eq, Structural, Hash, PartialOrd, Ord)]
pub struct WindowId(pub u32);

/// A tmux session, `$` and its number on the wire.
#[derive(Clone, Copy, Debug, PartialEq, Eq, Structural, Hash, PartialOrd, Ord)]
pub struct SessionId(pub u32);

/// A sigil followed by a number.
pub open spec fn sigiled(sigil: char, n: u32) -> Seq<char> {
    seq![sigil] + text::digits(n as nat)
}

/// The number behind a sigil; `None` where the sigil or the numeral is missing
/// or the number takes more than 32 bits.
pub open spec fn numbered(s: Seq<char>, sigil: char) -> Option<nat> {
    if s.len() > 0 && s[0] == sigil {
        text::number_within(s.skip(1), u32::MAX as nat)
    } else {
        None
    }
}

fn render(sigil: char, n: u32) -> (r: String)
    ensures
        r@ == sigiled(sigil, n),
{
    let mut r = String::new();
    r.push(sigil);
    text::push_decimal(&mut r, n as u64);
    assert(r@ =~= sigiled(sigil, n));
    r
}

/// Reads a sigil followed by a number.
pub fn read(s: &[char], sigil: char) -> (r: Option<u32>)
    ensures
        match r {
            Some(n) => numbered(s@, sigil) == Some(n as nat),
            None => numbered(s@, sigil) is None,
        },
{
    if s.len() == 0 || s[0] != sigil {
        return None;
    }
    let rest = vstd::slice::slice_subrange(s, 1, s.len());
    assert(rest@ =~= s@.skip(1));
    match text::parse(rest, u32::MAX as u64) {
        Some(n) => Some(n as u32),
        None => None,
    }
}

impl PaneId {
    pub fn to_text(self) -> (r: String)
        ensures
            r@ == sigiled('%', self.0),
    {
        render('%', self.0)
    }
}

impl WindowId {
    pub fn to_text(self) -> (r: String)
        ensures
            r@ == sigiled('@', self.0),
    {
        render('@', self.0)
    }
}

impl SessionId {
    pub fn to_text(self) -> (r: String)
        ensures
            r@ == sigiled('$', self.0),
    {
        render('$', self.0)
    }
}

/// Reading a rendered identifier gives its number back.
pub proof fn a_rendered_id_reads_back(sigil: char, n: u32)
    ensures
        numbered(sigiled(sigil, n), sigil) == Some(n as nat),
{
    text::a_rendered_number_reads_back(n as nat);
    assert(sigiled(sigil, n).skip(1) =~= text::digits(n as nat));
}

/// An identifier is its sigil and its number: another sigil, no number, or a number of
/// more than 32 bits is none.
pub proof fn an_identifier_is_a_sigil_and_a_number(sigil: char, other: char, n: u32, s: Seq<char>)
    ensures
        sigiled(sigil, n).len() > 1 && sigiled(sigil, n)[0] == sigil,
        sigiled(sigil, n).skip(1) == text::digits(n as nat),
        other != sigil ==> numbered(sigiled(sigil, n), other) is None,
        numbered(Seq::empty(), sigil) is None,
        numbered(s, sigil) is Some ==> numbered(s, sigil)->0 <= 0xffff_ffff,
{
    text::lemma_digits(n as nat);
    assert(sigiled(sigil, n).skip(1) =~= text::digits(n as nat));
}

} // verus!
