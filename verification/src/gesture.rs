//! Pointer gestures on a terminal pane.
//!
//! A whole gesture, from press to release over several frames, becomes exactly
//! one of: copying a link, passing a click to the application, or driving local
//! text selection.
use vstd::prelude::*;

verus! {

/// Which click was completed this frame. The three exclude each other.
#[derive(Clone, Copy, Debug, PartialEq, Eq, Structural)]
pub enum Click {
    Single,
    Double,
    Triple,
}

/// The phase of a drag in progress.
#[derive(Clone, Copy, Debug, PartialEq, Eq, Structural)]
pub enum DragPhase {
    Start,
    Continue,
    Stop,
}

/// One frame of pointer input, reduced to what the decision needs.
#[derive(Clone, Copy, Debug, PartialEq, Eq, Structural)]
pub struct Signals {
    /// No modifier is held. Modified gestures stay local selection.
    pub unmodified: bool,
    /// The primary button went down on this pane this frame.
    pub primary_pressed: bool,
    /// The primary button is held this frame.
    pub primary_down: bool,
    /// The click that was completed this frame, if any.
    pub click: Option<Click>,
    /// The phase of the drag in progress this frame, if any.
    pub drag: Option<DragPhase>,
    /// The press began on a copyable link.
    pub link_at_origin: bool,
    /// The terminal holds selected text.
    pub has_selection: bool,
    /// The application asked for mouse reports and the pane is live.
    pub mouse_app: bool,
}

impl Default for Signals {
    fn default() -> (r: Self)
        ensures
            r == (Signals {
                unmodified: false,
                primary_pressed: false,
                primary_down: false,
                click: None,
                drag: None,
                link_at_origin: false,
                has_selection: false,
                mouse_app: false,
            }),
    {
        Signals {
            unmodified: false,
            primary_pressed: false,
            primary_down: false,
            click: None,
            drag: None,
            link_at_origin: false,
            has_selection: false,
            mouse_app: false,
        }
    }
}

/// The single thing to do this frame.
#[derive(Clone, Copy, Debug, PartialEq, Eq, Structural)]
pub enum Outcome {
    /// Nothing.
    Idle,
    /// Copy the link at the press origin and release any output hold.
    CopyLink,
    /// A single click: clear the selection and release the hold, and pass the
    /// click to the application if it is to see it.
    Click { forward_to_app: bool },
    /// Select the word under the pointer, copy it, and clear.
    SelectWord,
    /// Select the line under the pointer, copy it, and clear.
    SelectLine,
    /// Hold output, anchor at the press origin, and extend to the pointer.
    DragBegin,
    /// Extend the selection to the pointer.
    DragExtend,
    /// Copy the selection if any, clear, and release the hold; pass a click to
    /// the application if the drag came to nothing and it is to see it.
    DragEnd { forward_to_app: bool },
}

/// The first frame of a gesture: the button just went down, or a very fast press
/// and release already count as a click or a drag.
pub open spec fn begins(s: Signals) -> bool {
    s.primary_pressed || s.click == Some(Click::Single) || s.drag == Some(DragPhase::Start)
}

/// A tap that the application is to see.
pub open spec fn taps_app(s: Signals) -> bool {
    s.mouse_app && s.unmodified && !s.has_selection
}

/// What a gesture that is no link copy does this frame.
pub open spec fn ordinary(s: Signals) -> Outcome {
    match s.drag {
        Some(DragPhase::Start) => Outcome::DragBegin,
        Some(DragPhase::Continue) => Outcome::DragExtend,
        Some(DragPhase::Stop) => Outcome::DragEnd { forward_to_app: taps_app(s) },
        None => match s.click {
            Some(Click::Triple) => Outcome::SelectLine,
            Some(Click::Double) => Outcome::SelectWord,
            Some(Click::Single) => Outcome::Click { forward_to_app: taps_app(s) },
            None => Outcome::Idle,
        },
    }
}

/// A frame that begins a link copy.
pub open spec fn takes_link(s: Signals) -> bool {
    s.unmodified && begins(s) && s.link_at_origin
}

/// What a frame does, given whether the gesture already is a link copy.
pub open spec fn outcome(latched: bool, s: Signals) -> Outcome {
    if latched {
        Outcome::Idle
    } else if takes_link(s) {
        Outcome::CopyLink
    } else {
        ordinary(s)
    }
}

/// Whether the gesture is a link copy after a frame. The release ends it.
pub open spec fn latched_after(latched: bool, s: Signals) -> bool {
    s.primary_down && (latched || takes_link(s))
}

/// What a whole run of frames does.
pub open spec fn outcomes(latched: bool, frames: Seq<Signals>) -> Seq<Outcome>
    decreases frames.len(),
{
    if frames.len() == 0 {
        Seq::empty()
    } else {
        seq![outcome(latched, frames[0])] + outcomes(
            latched_after(latched, frames[0]),
            frames.skip(1),
        )
    }
}

/// The gesture on one pane. All it remembers is whether it is a link copy.
#[derive(Clone, Copy, Debug)]
pub struct Pointer {
    link: bool,
}

impl Default for Pointer {
    fn default() -> (r: Self)
        ensures
            !r.latched(),
    {
        Pointer { link: false }
    }
}

fn classify(s: Signals) -> (r: Outcome)
    ensures
        r == ordinary(s),
{
    let taps: bool = s.mouse_app && s.unmodified && !s.has_selection;
    match s.drag {
        Some(DragPhase::Start) => return Outcome::DragBegin,
        Some(DragPhase::Continue) => return Outcome::DragExtend,
        Some(DragPhase::Stop) => return Outcome::DragEnd { forward_to_app: taps },
        None => {},
    }
    match s.click {
        Some(Click::Triple) => Outcome::SelectLine,
        Some(Click::Double) => Outcome::SelectWord,
        Some(Click::Single) => Outcome::Click { forward_to_app: taps },
        None => Outcome::Idle,
    }
}

impl Pointer {
    /// The gesture in progress began on a link.
    pub closed spec fn latched(&self) -> bool {
        self.link
    }

    /// Takes one frame and returns what to do.
    pub fn update(&mut self, signals: Signals) -> (r: Outcome)
        ensures
            r == outcome(old(self).latched(), signals),
            final(self).latched() == latched_after(old(self).latched(), signals),
    {
        let clicked: bool = match signals.click {
            Some(Click::Single) => true,
            _ => false,
        };
        let started: bool = match signals.drag {
            Some(DragPhase::Start) => true,
            _ => false,
        };
        let first: bool = signals.primary_pressed || clicked || started;
        let already: bool = self.link;
        if !already && signals.unmodified && first && signals.link_at_origin {
            self.link = true;
        }
        let done: Outcome = if self.link {
            if already {
                Outcome::Idle
            } else {
                Outcome::CopyLink
            }
        } else {
            classify(signals)
        };
        if !signals.primary_down {
            self.link = false;
        }
        done
    }
}

/// Once a gesture is a link copy, it does nothing more until the button has come
/// up again: no frame while it is held, and not the one of its release, selects,
/// clicks or copies.
pub proof fn a_link_copy_consumes_its_gesture(frames: Seq<Signals>)
    requires
        forall|i: int| 0 <= i < frames.len() - 1 ==> (#[trigger] frames[i]).primary_down,
    ensures
        forall|i: int|
            0 <= i < outcomes(true, frames).len() ==> #[trigger] outcomes(true, frames)[i]
                == Outcome::Idle,
        outcomes(true, frames).len() == frames.len(),
    decreases frames.len(),
{
    if frames.len() > 0 {
        let rest = frames.skip(1);
        let after = latched_after(true, frames[0]);
        if rest.len() > 0 {
            assert(frames[0].primary_down);
            assert forall|i: int| 0 <= i < rest.len() - 1 implies (
            #[trigger] rest[i]).primary_down by {
                assert(frames[i + 1].primary_down);
            }
            a_link_copy_consumes_its_gesture(rest);
        } else {
            assert(outcomes(after, rest).len() == 0);
        }
        assert forall|i: int| 0 <= i < outcomes(true, frames).len() implies #[trigger] outcomes(
            true,
            frames,
        )[i] == Outcome::Idle by {
            if i > 0 {
                assert(outcomes(true, frames)[i] == outcomes(after, rest)[i - 1]);
            }
        }
    }
}

/// A release ends a link copy: the next gesture starts fresh.
pub proof fn a_release_ends_a_link_copy(latched: bool, s: Signals)
    ensures
        !s.primary_down ==> !latched_after(latched, s),
{
}

/// A modified gesture never copies a link and never reaches the application.
pub proof fn a_modified_gesture_stays_local(s: Signals)
    ensures
        !s.unmodified ==> outcome(false, s) != Outcome::CopyLink && outcome(false, s) != (
        Outcome::Click { forward_to_app: true }) && outcome(false, s) != (Outcome::DragEnd {
            forward_to_app: true,
        }),
{
}

/// A click reaches the application only where it asked for the mouse, and never
/// where text was selected.
pub proof fn a_selection_is_never_forwarded(latched: bool, s: Signals)
    ensures
        (outcome(latched, s) == (Outcome::Click { forward_to_app: true }) || outcome(latched, s)
            == (Outcome::DragEnd { forward_to_app: true })) ==> s.mouse_app && !s.has_selection
            && s.unmodified,
{
}

/// A link is copied exactly where a plain gesture that is none yet begins on one: by a
/// press, by a click or by the start of a drag.
pub proof fn when_a_link_is_copied(latched: bool, s: Signals)
    ensures
        outcome(latched, s) == Outcome::CopyLink <==> !latched && s.unmodified && s.link_at_origin
            && (s.primary_pressed || s.click == Some(Click::Single) || s.drag == Some(
            DragPhase::Start,
        )),
        s.primary_down && outcome(latched, s) == Outcome::CopyLink ==> latched_after(latched, s),
        s.primary_down && latched ==> latched_after(latched, s),
        !latched && outcome(latched, s) != Outcome::CopyLink ==> !latched_after(latched, s),
{
}

/// A drag that copies no link holds the output and selects from its start, goes on
/// selecting, and at its end copies; a click in the same frame counts for nothing.
pub proof fn a_drag_selects(s: Signals)
    requires
        !takes_link(s),
    ensures
        s.drag == Some(DragPhase::Start) ==> outcome(false, s) == Outcome::DragBegin,
        s.drag == Some(DragPhase::Continue) ==> outcome(false, s) == Outcome::DragExtend,
        s.drag == Some(DragPhase::Stop) ==> outcome(false, s) is DragEnd,
{
}

/// Without a drag three clicks select a line, two a word, one is a click, and none does
/// nothing.
pub proof fn clicks_are_counted(s: Signals)
    requires
        !takes_link(s),
        s.drag is None,
    ensures
        s.click == Some(Click::Triple) ==> outcome(false, s) == Outcome::SelectLine,
        s.click == Some(Click::Double) ==> outcome(false, s) == Outcome::SelectWord,
        s.click == Some(Click::Single) ==> outcome(false, s) is Click,
        s.click is None ==> outcome(false, s) == Outcome::Idle,
{
}

/// A single click, or a drag that came to nothing, is passed on to an application that
/// asked for the mouse, if no modifier is held and nothing is selected.
pub proof fn when_a_click_reaches_the_application(s: Signals)
    requires
        !takes_link(s),
    ensures
        s.drag == Some(DragPhase::Stop) ==> outcome(false, s) == (Outcome::DragEnd {
            forward_to_app: s.mouse_app && s.unmodified && !s.has_selection,
        }),
        s.drag is None && s.click == Some(Click::Single) ==> outcome(false, s) == (Outcome::Click {
            forward_to_app: s.mouse_app && s.unmodified && !s.has_selection,
        }),
{
}

} // verus!
