use rustracing::integrator::{advance, begin, Action, Event, Terminal};

/// Runs a path with budget `depth` against the given query results, in turn,
/// and returns how it ended and how many queries it made.
fn run(depth: i32, events: &[Event]) -> (Terminal, usize) {
    let mut action = begin(depth);
    let mut queries = 0usize;
    loop {
        match action {
            Action::Finish(t) => return (t, queries),
            Action::Query(d) => {
                let event = events[queries];
                queries += 1;
                action = advance(d, event);
            }
        }
    }
}

#[test]
fn negative_budget_is_black_without_query() {
    assert_eq!(begin(-1), Action::Finish(Terminal::Black));
    assert_eq!(begin(i32::MIN), Action::Finish(Terminal::Black));
    assert_eq!(run(-1, &[]), (Terminal::Black, 0));
}

#[test]
fn non_negative_budget_queries_the_scene() {
    assert_eq!(begin(0), Action::Query(0));
    assert_eq!(begin(50), Action::Query(50));
}

#[test]
fn miss_shows_the_sky() {
    assert_eq!(advance(5, Event::Miss), Action::Finish(Terminal::Sky));
    assert_eq!(advance(0, Event::Miss), Action::Finish(Terminal::Sky));
}

#[test]
fn absorption_is_black() {
    assert_eq!(advance(5, Event::Absorbed), Action::Finish(Terminal::Black));
}

#[test]
fn scattering_spends_one_bounce() {
    assert_eq!(advance(5, Event::Scattered), Action::Query(4));
    assert_eq!(advance(0, Event::Scattered), Action::Finish(Terminal::Black));
}

#[test]
fn empty_scene_gives_the_sky_after_one_query() {
    let events = vec![Event::Miss; 10];
    for depth in 0..10 {
        assert_eq!(run(depth, &events), (Terminal::Sky, 1));
    }
}

#[test]
fn path_makes_at_most_depth_plus_one_queries() {
    let events = vec![Event::Scattered; 51];
    assert_eq!(run(50, &events), (Terminal::Black, 51));
    let mut mixed = vec![Event::Scattered; 3];
    mixed.push(Event::Miss);
    assert_eq!(run(50, &mixed), (Terminal::Sky, 4));
    assert_eq!(run(2, &mixed), (Terminal::Black, 3));
}
