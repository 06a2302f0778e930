use ray2m::march::MarchControl;

/// Feeds the outcomes to a fresh control while it asks for steps, and gives
/// back the number of steps it took.
fn run(limit: u32, stops: &[bool]) -> u32 {
    let mut control = MarchControl::new(limit);
    let mut offered = 0;
    while control.wants_step() && offered < stops.len() {
        control.record(stops[offered], false);
        offered += 1;
    }
    control.steps_taken()
}

#[test]
fn fresh_march_wants_a_step() {
    let control = MarchControl::new(100);
    assert!(control.wants_step());
    assert_eq!(control.steps_taken(), 0);
}

#[test]
fn march_without_steps_is_over_at_once() {
    let mut control = MarchControl::new(0);
    assert!(!control.wants_step());
    control.record(false, false);
    assert_eq!(control.steps_taken(), 0);
    assert!(!control.wants_step());
}

#[test]
fn march_ends_near_a_surface() {
    let mut control = MarchControl::new(100);
    control.record(false, false);
    control.record(false, false);
    assert!(control.wants_step());
    control.record(true, false);
    assert!(!control.wants_step());
    assert_eq!(control.steps_taken(), 3);
}

#[test]
fn march_ends_out_of_range() {
    let mut control = MarchControl::new(100);
    control.record(false, true);
    assert!(!control.wants_step());
    assert_eq!(control.steps_taken(), 1);
}

#[test]
fn march_ends_when_both_hold() {
    let mut control = MarchControl::new(100);
    control.record(true, true);
    assert!(!control.wants_step());
    assert_eq!(control.steps_taken(), 1);
}

#[test]
fn march_ends_at_the_limit() {
    let mut control = MarchControl::new(100);
    let mut steps = 0;
    while control.wants_step() {
        control.record(false, false);
        steps += 1;
        assert!(steps <= 100);
    }
    assert_eq!(steps, 100);
    assert_eq!(control.steps_taken(), 100);
}

#[test]
fn march_that_is_over_ignores_outcomes() {
    let mut control = MarchControl::new(3);
    control.record(true, false);
    control.record(false, false);
    control.record(false, true);
    assert_eq!(control.steps_taken(), 1);
    assert!(!control.wants_step());

    let mut spent = MarchControl::new(2);
    spent.record(false, false);
    spent.record(false, false);
    spent.record(false, false);
    spent.record(true, true);
    assert_eq!(spent.steps_taken(), 2);
    assert!(!spent.wants_step());
}

#[test]
fn march_takes_the_least_of_limit_outcomes_and_first_stop() {
    assert_eq!(run(5, &[]), 0);
    assert_eq!(run(5, &[false, false]), 2);
    assert_eq!(run(5, &[false, true, false, false]), 2);
    assert_eq!(run(5, &[true]), 1);
    assert_eq!(run(2, &[false, false, false, true]), 2);
    assert_eq!(run(3, &[false, false, true]), 3);
    assert_eq!(run(0, &[true, true]), 0);
    assert_eq!(run(1, &[false]), 1);
}

#[test]
fn march_never_passes_its_limit() {
    for limit in 0..12u32 {
        for pattern in 0..(1u32 << 12) {
            let stops: Vec<bool> = (0..12).map(|k| pattern >> k & 1 == 1).collect();
            let first = stops.iter().position(|s| *s).map(|k| k as u32 + 1).unwrap_or(12);
            assert_eq!(run(limit, &stops), first.min(limit));
        }
    }
}

#[test]
fn march_with_the_largest_limit() {
    let mut control = MarchControl::new(u32::MAX);
    for _ in 0..1000 {
        control.record(false, false);
    }
    assert_eq!(control.steps_taken(), 1000);
    assert!(control.wants_step());
}
