//! When the window is painted, and how a picture of it is read back.
//!
//! Times are nanoseconds since the program began.
use vstd::prelude::*;

verus! {

/// A planned look at the window.
#[derive(Clone, Copy, Debug, PartialEq, Eq, Structural)]
pub struct Wake {
    pub when: u64,
    /// Local changes are painted as soon as their time comes; remote output
    /// still keeps to the interval between frames.
    pub force: bool,
}

/// What to do about a request to paint.
#[derive(Clone, Copy, Debug, PartialEq, Eq, Structural)]
pub enum Redraw {
    Paint,
    /// It is too early for remote output: another look is planned.
    Later,
}

/// What to do before waiting for events.
#[derive(Clone, Copy, Debug, PartialEq, Eq, Structural)]
pub enum Rest {
    /// Wait for events.
    Wait,
    /// Ask for a frame, then wait for events.
    Redraw,
    /// Wait for events until this time at most.
    Until(u64),
}

/// The plan for the next frame.
#[derive(Clone, Copy, Debug, PartialEq, Eq, Structural)]
pub struct Schedule {
    pub next: Option<Wake>,
    pub last_paint: Option<u64>,
    pub input_redraw: bool,
}

/// A plan with one more look: the earlier time, and forced if either is.
pub open spec fn merged(next: Option<Wake>, when: u64, force: bool) -> Wake {
    match next {
        Some(previous) => Wake {
            when: if previous.when <= when {
                previous.when
            } else {
                when
            },
            force: previous.force || force,
        },
        None => Wake { when, force },
    }
}

/// What a request to paint comes to.
pub open spec fn redraws(
    before: Schedule,
    now: u64,
    interval: u64,
    r: Redraw,
    after: Schedule,
) -> bool {
    let early = !before.input_redraw && before.last_paint is Some && now < before.last_paint->0 + interval;
    &&& r == (if early {
        Redraw::Later
    } else {
        Redraw::Paint
    })
    &&& after == (Schedule {
        input_redraw: false,
        next: if early {
            Some(
                merged(
                    before.next,
                    (before.last_paint->0 + interval) as u64,
                    false,
                ),
            )
        } else if before.next is Some && before.next->0.when <= now {
            None
        } else {
            before.next
        },
        ..before
    })
}

/// What remote output comes to.
pub open spec fn plans(before: Schedule, now: u64, interval: u64, after: Schedule) -> bool {
    after == (Schedule {
        next: Some(
            merged(
                before.next,
                match before.last_paint {
                    Some(painted) => if now < painted + interval {
                        (painted + interval) as u64
                    } else {
                        now
                    },
                    None => now,
                },
                false,
            ),
        ),
        ..before
    })
}

/// What waiting for events comes to.
pub open spec fn rests(before: Schedule, now: u64, r: Rest, after: Schedule) -> bool {
    match before.next {
        None => r == Rest::Wait && after == before,
        Some(wake) => if wake.when <= now {
            &&& r == Rest::Redraw
            &&& after == (Schedule {
                next: None,
                input_redraw: before.input_redraw || wake.force,
                ..before
            })
        } else {
            r == Rest::Until(wake.when) && after == before
        },
    }
}

impl Schedule {
    pub fn new() -> (r: Self)
        ensures
            r == (Schedule { next: None, last_paint: None, input_redraw: false }),
    {
        Schedule { next: None, last_paint: None, input_redraw: false }
    }

    /// Plans a look at the window.
    pub fn schedule(&mut self, when: u64, force: bool)
        ensures
            *final(self) == (Schedule {
                next: Some(merged(old(self).next, when, force)),
                ..*old(self)
            }),
    {
        let wake: Wake = match self.next {
            Some(previous) => Wake {
                when: if previous.when <= when {
                    previous.when
                } else {
                    when
                },
                force: previous.force || force,
            },
            None => Wake { when, force },
        };
        self.next = Some(wake);
    }

    /// A local event is painted at once.
    pub fn request(&mut self)
        ensures
            *final(self) == (Schedule { input_redraw: true, ..*old(self) }),
    {
        self.input_redraw = true;
    }

    /// Decides about a request to paint. Local events always paint; remote output
    /// waits out the interval since the last frame.
    pub fn redraw(&mut self, now: u64, interval: u64) -> (r: Redraw)
        requires
            old(self).last_paint is Some ==> old(self).last_paint->0 + interval <= u64::MAX,
        ensures
            redraws(*old(self), now, interval, r, *final(self)),
    {
        let force: bool = self.input_redraw;
        self.input_redraw = false;
        if !force {
            if let Some(painted) = self.last_paint {
                if now < painted + interval {
                    self.schedule(painted + interval, false);
                    return Redraw::Later;
                }
            }
        }
        if let Some(wake) = self.next {
            if wake.when <= now {
                self.next = None;
            }
        }
        Redraw::Paint
    }

    /// A frame was painted.
    pub fn painted(&mut self, now: u64)
        ensures
            *final(self) == (Schedule { last_paint: Some(now), ..*old(self) }),
    {
        self.last_paint = Some(now);
    }

    /// Remote output changed something: plans a frame as early as the interval
    /// allows.
    pub fn remote(&mut self, now: u64, interval: u64)
        requires
            old(self).last_paint is Some ==> old(self).last_paint->0 + interval <= u64::MAX,
        ensures
            plans(*old(self), now, interval, *final(self)),
    {
        let when: u64 = match self.last_paint {
            Some(painted) => if now < painted + interval {
                painted + interval
            } else {
                now
            },
            None => now,
        };
        self.schedule(when, false);
    }

    /// What to do before waiting for events.
    pub fn rest(&mut self, now: u64) -> (r: Rest)
        ensures
            rests(*old(self), now, r, *final(self)),
    {
        match self.next {
            None => Rest::Wait,
            Some(wake) => if wake.when <= now {
                self.next = None;
                if wake.force {
                    self.input_redraw = true;
                }
                Rest::Redraw
            } else {
                Rest::Until(wake.when)
            },
        }
    }
}

/// A plan is never put off by another one, and never forgets that it was forced.
pub proof fn a_plan_is_never_put_off(next: Option<Wake>, when: u64, force: bool)
    ensures
        merged(next, when, force).when <= when,
        force ==> merged(next, when, force).force,
        next is Some ==> merged(next, when, force).when <= next->0.when,
        next is Some && next->0.force ==> merged(next, when, force).force,
{
}

/// The bytes of a row of pixels in a buffer whose rows begin at multiples of 256.
pub fn row_stride(width: u32) -> (r: u32)
    requires
        width <= 0x3fff_ff00,
    ensures
        r % 256 == 0,
        width * 4 <= r < width * 4 + 256,
{
    let bytes: u32 = width * 4;
    let rest: u32 = bytes % 256;
    if rest == 0 {
        bytes
    } else {
        bytes - rest + 256
    }
}

/// The pixels of so many rows of a buffer with room behind each row, without
/// that room.
pub open spec fn rows_of(mapped: Seq<u8>, stride: nat, row: nat, height: nat) -> Seq<u8>
    decreases height,
{
    if height == 0 {
        Seq::empty()
    } else {
        let from = (height - 1) * stride;
        rows_of(mapped, stride, row, (height - 1) as nat) + mapped.subrange(from, from + row)
    }
}

/// The pixels of a picture, from a buffer with room behind each row.
pub fn unpadded(mapped: &[u8], stride: usize, row: usize, height: usize) -> (r: Vec<u8>)
    requires
        row <= stride,
        stride * height <= mapped@.len(),
    ensures
        r@ == rows_of(mapped@, stride as nat, row as nat, height as nat),
{
    let mut r: Vec<u8> = Vec::new();
    let mut from: usize = 0;
    assert(0 * stride == 0) by (nonlinear_arith);
    for i in 0..height
        invariant
            row <= stride,
            stride * height <= mapped@.len(),
            from == i * stride,
            r@ == rows_of(mapped@, stride as nat, row as nat, i as nat),
    {
        assert(i * stride + stride <= stride * height) by (nonlinear_arith)
            requires
                i < height,
                stride >= 0,
        ;
        assert((i + 1) * stride == i * stride + stride) by (nonlinear_arith);
        assert(from + stride <= mapped.len());
        let part = vstd::slice::slice_subrange(mapped, from, from + row);
        crate::sessions::push_bytes(&mut r, part);
        from = from + stride;
    }
    r
}

/// A look that is planned beside another comes at the earlier of the two times, and is
/// forced only if one of them is.
pub proof fn the_earlier_look_counts(next: Option<Wake>, when: u64, force: bool)
    ensures
        next is None ==> merged(next, when, force) == (Wake { when, force }),
        next is Some ==> merged(next, when, force).when == when || merged(next, when, force).when
            == next->0.when,
        merged(next, when, force).force ==> force || (next is Some && next->0.force),
{
}

/// Each pixel of a picture stands where it stood in its row of the buffer.
pub proof fn a_pixel_keeps_its_place(
    mapped: Seq<u8>,
    stride: nat,
    row: nat,
    height: nat,
    y: nat,
    x: nat,
)
    requires
        row <= stride,
        stride * height <= mapped.len(),
        y < height,
        x < row,
    ensures
        rows_of(mapped, stride, row, height).len() == height * row,
        y * row + x < height * row,
        rows_of(mapped, stride, row, height)[(y * row + x) as int] == mapped[(y * stride
            + x) as int],
    decreases height,
{
    let less = (height - 1) as nat;
    let from = (less * stride) as int;
    assert(stride * height == less * stride + stride) by (nonlinear_arith)
        requires
            height == less + 1,
    ;
    assert(stride * less <= mapped.len()) by (nonlinear_arith)
        requires
            stride * height <= mapped.len(),
            height == less + 1,
    ;
    assert(height * row == less * row + row) by (nonlinear_arith)
        requires
            height == less + 1,
    ;
    let before = rows_of(mapped, stride, row, less);
    lemma_rows_len(mapped, stride, row, less);
    if y < less {
        a_pixel_keeps_its_place(mapped, stride, row, less, y, x);
        assert(rows_of(mapped, stride, row, height)[(y * row + x) as int] == before[(y * row
            + x) as int]);
    } else {
        assert(y * row == less * row);
        assert(y * stride == less * stride);
        assert((height - 1) * stride == from);
        assert(rows_of(mapped, stride, row, height)[(y * row + x) as int] == mapped.subrange(
            from,
            from + row,
        )[x as int]);
    }
}

proof fn lemma_rows_len(mapped: Seq<u8>, stride: nat, row: nat, height: nat)
    requires
        row <= stride,
        stride * height <= mapped.len(),
    ensures
        rows_of(mapped, stride, row, height).len() == height * row,
    decreases height,
{
    if height > 0 {
        let less = (height - 1) as nat;
        assert(stride * height == less * stride + stride) by (nonlinear_arith)
            requires
                height == less + 1,
        ;
        assert(stride * less == less * stride) by (nonlinear_arith);
        assert(height * row == less * row + row) by (nonlinear_arith)
            requires
                height == less + 1,
        ;
        lemma_rows_len(mapped, stride, row, less);
        assert((height - 1) * stride == less * stride);
    } else {
        assert(height * row == 0) by (nonlinear_arith)
            requires
                height == 0,
        ;
    }
}

/// A local event is painted at once; remote output is painted once the interval since the
/// last frame is over, and is planned for then where it is not.
pub proof fn remote_output_waits_for_its_interval(
    before: Schedule,
    now: u64,
    interval: u64,
    r: Redraw,
    after: Schedule,
)
    requires
        before.last_paint is Some ==> before.last_paint->0 + interval <= u64::MAX,
        redraws(before, now, interval, r, after),
    ensures
        before.input_redraw ==> r == Redraw::Paint,
        before.last_paint is None ==> r == Redraw::Paint,
        before.last_paint is Some && now >= before.last_paint->0 + interval ==> r == Redraw::Paint,
        !before.input_redraw && before.last_paint is Some && now < before.last_paint->0 + interval
            ==> r == Redraw::Later && after.next is Some && after.next->0.when
            <= before.last_paint->0 + interval,
        !after.input_redraw && after.last_paint == before.last_paint,
        r == Redraw::Paint && before.next is Some && before.next->0.when > now ==> after.next
            == before.next,
        r == Redraw::Paint && before.next is Some && before.next->0.when <= now ==> after.next
            is None,
{
    a_plan_is_never_put_off(
        before.next,
        if before.last_paint is Some {
            (before.last_paint->0 + interval) as u64
        } else {
            0
        },
        false,
    );
}

/// Remote output plans a frame no later than the interval since the last one allows, and
/// where nothing was planned no earlier either.
pub proof fn remote_output_plans_a_frame(
    before: Schedule,
    now: u64,
    interval: u64,
    after: Schedule,
)
    requires
        before.last_paint is Some ==> before.last_paint->0 + interval <= u64::MAX,
        plans(before, now, interval, after),
    ensures
        after.next is Some,
        before.next is None && before.last_paint is None ==> after.next->0.when == now,
        before.next is None && before.last_paint is Some && now < before.last_paint->0 + interval
            ==> after.next->0.when == before.last_paint->0 + interval,
        before.next is None && before.last_paint is Some && now >= before.last_paint->0 + interval
            ==> after.next->0.when == now,
        before.next is Some ==> after.next->0.when <= before.next->0.when && after.next->0.force
            == before.next->0.force,
        before.next is None ==> !after.next->0.force,
        after.input_redraw == before.input_redraw && after.last_paint == before.last_paint,
{
}

/// A planned look becomes a request for a frame when its time has come, at once where it
/// was forced; until then it is waited for, and without one for events alone.
pub proof fn a_planned_look_is_waited_for(before: Schedule, now: u64, r: Rest, after: Schedule)
    requires
        rests(before, now, r, after),
    ensures
        before.next is None ==> r == Rest::Wait && after == before,
        before.next is Some && before.next->0.when > now ==> r == Rest::Until(
            before.next->0.when,
        ) && after == before,
        before.next is Some && before.next->0.when <= now ==> r == Rest::Redraw && after.next
            is None && after.input_redraw == (before.input_redraw || before.next->0.force),
{
}

} // verus!
