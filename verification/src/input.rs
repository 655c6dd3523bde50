use vstd::prelude::*;

verus! {

/// One raw movement sample from the pointer device: signed displacements,
/// most-significant bit already folded into the sign.
#[derive(Clone, Copy, Debug, PartialEq, Eq, Structural)]
pub struct MouseDisplacement {
    pub x: i8,
    pub y: i8,
}

/// Scroll-wheel state carried by a movement event.
#[derive(Clone, Copy, Debug, PartialEq, Eq, Structural)]
pub struct ScrollInfo {
    pub scrolling_up: bool,
    pub scrolling_down: bool,
}

/// Button-hold state carried by a movement event.
#[derive(Clone, Copy, Debug, PartialEq, Eq, Structural)]
pub struct ButtonInfo {
    pub left_button_hold: bool,
    pub right_button_hold: bool,
    pub fourth_button_hold: bool,
    pub fifth_button_hold: bool,
}

/// A pointer movement event as the driver reports it.
#[derive(Clone, Copy, Debug, PartialEq, Eq, Structural)]
pub struct MouseEvent {
    pub displacement: MouseDisplacement,
    pub mousemove: ScrollInfo,
    pub buttonact: ButtonInfo,
}

/// What the event queue can hand the frame loop: a pointer movement, or
/// anything else (key presses and the like), which this core ignores.
#[derive(Clone, Copy, Debug, PartialEq, Eq, Structural)]
pub enum Event {
    MouseMovement(MouseEvent),
    Other,
}

/// Two movement events agree on every modifier: scroll state and all four
/// button-hold flags.
pub open spec fn same_modifiers(a: MouseEvent, b: MouseEvent) -> bool {
    a.mousemove == b.mousemove && a.buttonact == b.buttonact
}

/// Is `e` a movement event whose modifiers agree with `first`, so that its
/// displacement may be folded into the same batch?
pub open spec fn event_matches(first: MouseEvent, e: Event) -> bool {
    match e {
        Event::MouseMovement(m) => same_modifiers(first, m),
        Event::Other => false,
    }
}

/// Horizontal displacement of the first event plus those of the first `n`
/// queued events (meaningful when those are matching movements).
pub open spec fn sum_dx(first: MouseEvent, rest: Seq<Event>, n: int) -> int
    decreases n,
{
    if n <= 0 {
        first.displacement.x as int
    } else {
        sum_dx(first, rest, n - 1) + (match rest[n - 1] {
            Event::MouseMovement(m) => m.displacement.x as int,
            Event::Other => 0,
        })
    }
}

/// Vertical counterpart of `sum_dx`.
pub open spec fn sum_dy(first: MouseEvent, rest: Seq<Event>, n: int) -> int
    decreases n,
{
    if n <= 0 {
        first.displacement.y as int
    } else {
        sum_dy(first, rest, n - 1) + (match rest[n - 1] {
            Event::MouseMovement(m) => m.displacement.y as int,
            Event::Other => 0,
        })
    }
}

/// The coalescing rule of the frame loop: starting from the movement event
/// `first`, fold in each queued event that is a movement with the same
/// modifier state, and stop at the first event that is not. The stopping
/// event itself is consumed and dropped by the caller — this core's chosen
/// policy, applied consistently; it is never re-queued.
///
/// Returns the summed horizontal and vertical displacement and how many
/// queued events were folded in.
pub fn coalesce_movement(first: &MouseEvent, rest: &Vec<Event>) -> (r: (isize, isize, usize))
    requires
        rest@.len() <= 0x80_0000,
    ensures
        r.2 <= rest@.len(),
        forall|k: int| 0 <= k < r.2 ==> event_matches(*first, rest@[k]),
        r.2 < rest@.len() ==> !event_matches(*first, rest@[r.2 as int]),
        r.0 == sum_dx(*first, rest@, r.2 as int),
        r.1 == sum_dy(*first, rest@, r.2 as int),
{
    let mut dx: isize = first.displacement.x as isize;
    let mut dy: isize = first.displacement.y as isize;
    let mut i: usize = 0;
    let mut stopped: bool = false;
    let n = rest.len();
    while i < n && !stopped
        invariant
            i <= n,
            n == rest@.len(),
            n <= 0x80_0000,
            forall|k: int| 0 <= k < i ==> event_matches(*first, rest@[k]),
            dx == sum_dx(*first, rest@, i as int),
            dy == sum_dy(*first, rest@, i as int),
            -128 * (i + 1) <= dx <= 128 * (i + 1),
            -128 * (i + 1) <= dy <= 128 * (i + 1),
            stopped ==> i < n && !event_matches(*first, rest@[i as int]),
        decreases n - i + (if stopped { 0int } else { 1 }),
    {
        match &rest[i] {
            Event::MouseMovement(m) => {
                if m.mousemove == first.mousemove && m.buttonact == first.buttonact {
                    dx = dx + m.displacement.x as isize;
                    dy = dy + m.displacement.y as isize;
                    i = i + 1;
                } else {
                    stopped = true;
                }
            },
            Event::Other => {
                stopped = true;
            },
        }
    }
    (dx, dy, i)
}

} // verus!
