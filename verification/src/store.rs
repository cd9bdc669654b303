//! What is kept of a workspace between launches.
use vstd::prelude::*;
use crate::text;

verus! {

/// Frames a second for remote output, unless the user chose another number.
pub const DEFAULT_FPS: u32 = 5;

/// Seconds after which a quiet tab changes its colour, unless the user chose
/// another number.
pub const DEFAULT_IDLE: u32 = 30;

/// The bounds within which settings are kept.
#[derive(Clone, Copy, Debug, PartialEq, Eq, Structural)]
pub struct Limits {
    pub tabs: usize,
    pub fps: u32,
    pub idle: u32,
    pub open_secs: u64,
}

/// Where a saved tab points, as far as its name goes.
#[derive(Clone, Debug)]
pub struct Tab {
    pub destination: String,
    pub host: String,
    pub session: String,
}

/// The settings of a saved workspace.
#[derive(Clone, Copy, Debug, PartialEq, Eq, Structural)]
pub struct Settings {
    pub active: usize,
    pub restore_tabs: bool,
    pub fps: u32,
    pub idle: u32,
    pub open_secs: u64,
}

/// A saved workspace.
pub struct Workspace {
    pub tabs: Vec<Tab>,
    pub settings: Settings,
}

/// A frame rate within its bounds.
pub open spec fn clamped_fps(fps: u32, limits: Limits) -> u32 {
    if fps < 1 {
        1
    } else if fps > limits.fps {
        limits.fps
    } else {
        fps
    }
}

/// The smaller of two numbers.
pub open spec fn at_most(n: nat, limit: nat) -> nat {
    if n < limit {
        n
    } else {
        limit
    }
}

/// A frame rate within its bounds.
pub fn clamp_fps(fps: u32, limits: Limits) -> (r: u32)
    ensures
        r == clamped_fps(fps, limits),
{
    if fps < 1 {
        1
    } else if fps > limits.fps {
        limits.fps
    } else {
        fps
    }
}

/// What a tab that points nowhere is called.
pub open spec fn new_connection() -> Seq<char> {
    "New connection"@
}

/// What a tab is called: where it points, and its session.
pub open spec fn label_text(tab: Tab) -> Seq<char> {
    let destination = if text::trimmed(tab.destination@).len() == 0 {
        text::trimmed(tab.host@)
    } else {
        text::trimmed(tab.destination@)
    };
    let session = text::trimmed(tab.session@);
    if destination.len() == 0 && session.len() == 0 {
        new_connection()
    } else if destination.len() == 0 {
        session
    } else if session.len() == 0 {
        destination
    } else {
        destination + " / "@ + session
    }
}

fn trim_text(s: &String) -> (r: Vec<char>)
    ensures
        r@ == text::trimmed(s@),
{
    let v = text::chars_of(s.as_str());
    text::trim(v.as_slice())
}

/// What a tab is called. A tab is called by where it points, whether it is
/// connected or not.
pub fn label(tab: &Tab) -> (r: String)
    ensures
        r@ == label_text(*tab),
{
    let written = trim_text(&tab.destination);
    let destination: Vec<char> = if written.len() == 0 {
        trim_text(&tab.host)
    } else {
        written
    };
    let session = trim_text(&tab.session);
    if destination.len() == 0 && session.len() == 0 {
        "New connection".to_owned()
    } else if destination.len() == 0 {
        text::string_of(session.as_slice())
    } else if session.len() == 0 {
        text::string_of(destination.as_slice())
    } else {
        let mut r = text::string_of(destination.as_slice());
        text::push_text(&mut r, " / ");
        text::push_chars(&mut r, session.as_slice());
        r
    }
}

/// A span of seconds in its two largest units.
pub open spec fn open_text(secs: u64) -> Seq<char> {
    let days = secs as nat / 86_400;
    let hours = (secs as nat % 86_400) / 3_600;
    let minutes = (secs as nat % 3_600) / 60;
    if days == 0 && hours == 0 && minutes == 0 {
        text::digits(secs as nat) + "s"@
    } else if days == 0 && hours == 0 {
        text::digits(minutes) + "m"@
    } else if days == 0 {
        text::digits(hours) + "h "@ + text::digits(minutes) + "m"@
    } else {
        text::digits(days) + "d "@ + text::digits(hours) + "h"@
    }
}

/// How long the program has been open, in its two largest units.
pub fn format_open(secs: u64) -> (r: String)
    ensures
        r@ == open_text(secs),
{
    let days: u64 = secs / 86_400;
    let hours: u64 = (secs % 86_400) / 3_600;
    let minutes: u64 = (secs % 3_600) / 60;
    if days == 0 && hours == 0 && minutes == 0 {
        let mut r = text::decimal(secs);
        text::push_text(&mut r, "s");
        r
    } else if days == 0 && hours == 0 {
        let mut r = text::decimal(minutes);
        text::push_text(&mut r, "m");
        r
    } else if days == 0 {
        let mut r = text::decimal(hours);
        text::push_text(&mut r, "h ");
        text::push_decimal(&mut r, minutes);
        text::push_text(&mut r, "m");
        r
    } else {
        let mut r = text::decimal(days);
        text::push_text(&mut r, "d ");
        text::push_decimal(&mut r, hours);
        text::push_text(&mut r, "h");
        r
    }
}

/// A frame rate is kept where it is within its bounds, and is otherwise the nearer
/// bound.
pub proof fn a_frame_rate_stays_within_bounds(fps: u32, limits: Limits)
    requires
        limits.fps >= 1,
    ensures
        1 <= clamped_fps(fps, limits) <= limits.fps,
        1 <= fps <= limits.fps ==> clamped_fps(fps, limits) == fps,
        fps == 0 ==> clamped_fps(fps, limits) == 1,
        fps > limits.fps ==> clamped_fps(fps, limits) == limits.fps,
{
}

/// The smaller of two numbers is one of them, and is above neither.
pub proof fn the_smaller_number(n: nat, limit: nat)
    ensures
        at_most(n, limit) <= n && at_most(n, limit) <= limit,
        at_most(n, limit) == n || at_most(n, limit) == limit,
{
}

/// A tab is called by where it points and by its session, in this order; the
/// destination that was written wins over the host, and what is missing is left out.
pub proof fn a_tab_is_called_by_where_it_points(tab: Tab)
    ensures
        ({
            let written = text::trimmed(tab.destination@);
            let host = text::trimmed(tab.host@);
            let session = text::trimmed(tab.session@);
            &&& written.len() > 0 && session.len() > 0 ==> label_text(tab) == written + seq![
                ' ',
                '/',
                ' ',
            ] + session
            &&& written.len() > 0 && session.len() == 0 ==> label_text(tab) == written
            &&& written.len() == 0 && host.len() > 0 && session.len() > 0 ==> label_text(tab) == host
                + seq![' ', '/', ' '] + session
            &&& written.len() == 0 && host.len() > 0 && session.len() == 0 ==> label_text(tab)
                == host
            &&& written.len() == 0 && host.len() == 0 && session.len() > 0 ==> label_text(tab)
                == session
            &&& written.len() == 0 && host.len() == 0 && session.len() == 0 ==> label_text(tab)
                == "New connection"@
        }),
{
    reveal_strlit(" / ");
    assert(" / "@ =~= seq![' ', '/', ' ']);
}

/// A span is told in its two largest units: days and hours, hours and minutes, or
/// minutes, or seconds, each of them in full.
pub proof fn a_span_is_told_in_its_largest_units(days: nat, hours: nat, minutes: nat, rest: nat)
    requires
        hours < 24,
        minutes < 60,
        rest < 60,
        days * 86_400 + hours * 3_600 + minutes * 60 + rest <= u64::MAX,
    ensures
        ({
            let told = open_text((days * 86_400 + hours * 3_600 + minutes * 60 + rest) as u64);
            &&& days > 0 ==> told == text::digits(days) + "d "@ + text::digits(hours) + "h"@
            &&& days == 0 && hours > 0 ==> told == text::digits(hours) + "h "@ + text::digits(
                minutes,
            ) + "m"@
            &&& days == 0 && hours == 0 && minutes > 0 ==> told == text::digits(minutes) + "m"@
            &&& days == 0 && hours == 0 && minutes == 0 ==> told == text::digits(rest) + "s"@
        }),
{
    let secs = days * 86_400 + hours * 3_600 + minutes * 60 + rest;
    assert(secs / 86_400 == days);
    assert(secs % 86_400 == hours * 3_600 + minutes * 60 + rest);
    assert((secs % 86_400) / 3_600 == hours);
    assert((secs % 3_600) / 60 == minutes);
}

} // verus!
