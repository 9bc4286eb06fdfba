//! Control of the path integrator. A path starts with a bounce budget (the
//! camera's maximum depth) and alternates scene queries, made by the caller,
//! with the decisions here: stop in black once the budget is spent, stop with
//! the sky colour when the ray escapes the scene, stop in black when the hit
//! material absorbs the ray, and otherwise follow the scattered ray with one
//! bounce fewer.

use vstd::prelude::*;

verus! {

/// What one scene query reported for the current ray.
#[derive(Clone, Copy, Debug, PartialEq, Eq, Structural)]
pub enum Event {
    /// No primitive was hit within the valid distances.
    Miss,
    /// A primitive was hit and its material did not scatter the ray.
    Absorbed,
    /// A primitive was hit and its material scattered the ray.
    Scattered,
}

/// How a finished path contributes colour.
#[derive(Clone, Copy, Debug, PartialEq, Eq, Structural)]
pub enum Terminal {
    /// No light: the budget ran out or the ray was absorbed.
    Black,
    /// The background gradient seen along the last ray, weighted by the
    /// attenuation gathered so far.
    Sky,
}

/// What the caller does next with a path.
#[derive(Clone, Copy, Debug, PartialEq, Eq, Structural)]
pub enum Action {
    /// Query the scene with the current ray; `depth` is the budget left.
    Query(i32),
    /// The path is over.
    Finish(Terminal),
}

/// The action for a path with bounce budget `depth`.
pub open spec fn begin_spec(depth: i32) -> Action {
    if depth < 0 {
        Action::Finish(Terminal::Black)
    } else {
        Action::Query(depth)
    }
}

/// The action after a query made with budget `depth` reported `event`.
pub open spec fn advance_spec(depth: i32, event: Event) -> Action
    recommends
        depth >= 0,
{
    match event {
        Event::Miss => Action::Finish(Terminal::Sky),
        Event::Absorbed => Action::Finish(Terminal::Black),
        Event::Scattered => begin_spec((depth - 1) as i32),
    }
}

/// Starts a path with bounce budget `depth`: a negative budget ends it in
/// black at once, without a scene query.
pub fn begin(depth: i32) -> (a: Action)
    ensures
        a == begin_spec(depth),
        depth < 0 ==> a == Action::Finish(Terminal::Black),
        depth >= 0 ==> a == Action::Query(depth),
{
    if depth < 0 {
        Action::Finish(Terminal::Black)
    } else {
        Action::Query(depth)
    }
}

/// Decides what follows a scene query made with budget `depth`.
pub fn advance(depth: i32, event: Event) -> (a: Action)
    requires
        depth >= 0,
    ensures
        a == advance_spec(depth, event),
{
    match event {
        Event::Miss => Action::Finish(Terminal::Sky),
        Event::Absorbed => Action::Finish(Terminal::Black),
        Event::Scattered => begin(depth - 1),
    }
}

/// The end of a path that is at `action` and will see `events` in turn: its
/// terminal and the number of scene queries made, or `None` where the events
/// run out before the path ends.
pub open spec fn outcome(action: Action, events: Seq<Event>) -> Option<(Terminal, nat)>
    decreases events.len(),
{
    match action {
        Action::Finish(t) => Some((t, 0)),
        Action::Query(depth) => {
            if events.len() == 0 {
                None
            } else {
                match outcome(advance_spec(depth, events[0]), events.drop_first()) {
                    Some((t, n)) => Some((t, n + 1)),
                    None => None,
                }
            }
        },
    }
}

/// A path started with a negative budget is black and queries nothing,
/// whatever the scene would report.
pub proof fn lemma_depth_cutoff(depth: i32, events: Seq<Event>)
    requires
        depth < 0,
    ensures
        outcome(begin_spec(depth), events) == Some((Terminal::Black, 0nat)),
{
}

/// In a scene with no primitives every query misses, so a path with a
/// non-negative budget shows exactly the sky, after one query.
pub proof fn lemma_empty_scene(depth: i32, events: Seq<Event>)
    requires
        depth >= 0,
        events.len() >= 1,
        forall|i: int| 0 <= i < events.len() ==> events[i] == Event::Miss,
    ensures
        outcome(begin_spec(depth), events) == Some((Terminal::Sky, 1nat)),
{
    assert(events[0] == Event::Miss);
    assert(outcome(Action::Finish(Terminal::Sky), events.drop_first()) == Some((Terminal::Sky, 0nat)));
}

/// Bounded recursion: a path started with budget `depth` ends after at most
/// `depth + 1` scene queries, whatever they report.
pub proof fn lemma_bounded_queries(depth: i32, events: Seq<Event>)
    requires
        events.len() > depth,
    ensures
        outcome(begin_spec(depth), events) matches Some((_, n)) && n <= if depth < 0 {
            0
        } else {
            depth + 1
        },
    decreases events.len(),
{
    if depth >= 0 {
        let rest = events.drop_first();
        match events[0] {
            Event::Scattered => {
                lemma_bounded_queries((depth - 1) as i32, rest);
                assert(advance_spec(depth, events[0]) == begin_spec((depth - 1) as i32));
            },
            _ => {
                assert(outcome(advance_spec(depth, events[0]), rest) matches Some((_, m)) && m == 0);
            },
        }
    }
}

} // verus!
