use invaders::invaders::Invader;
use invaders::invaders::Invaders;
use invaders::timer::Timer;
use invaders::NUM_COLS;
use invaders::NUM_ROWS;

fn positions(inv: &Invaders) -> Vec<(usize, usize)> {
    inv.army.iter().map(|e| (e.x, e.y)).collect()
}

/// One ready tick, whatever the current countdown is.
fn tick(inv: &mut Invaders) {
    assert!(inv.update(10_000));
}

#[test]
fn new_formation_spawns_sparse_grid() {
    let inv = Invaders::new();
    // x in {2, 4, ..., 36}: 18 columns; y in {2, 4, 6, 8}: 4 rows.
    assert_eq!(inv.army.len(), 72);
    for e in inv.army.iter() {
        assert!(e.x > 1 && e.x < NUM_COLS - 2);
        assert!(e.y > 0 && e.y < 9);
        assert_eq!(e.x % 2, 0);
        assert_eq!(e.y % 2, 0);
    }
    // Every qualifying cell is populated exactly once.
    let mut found = positions(&inv);
    found.sort();
    let mut expected = Vec::new();
    for x in (2..=36).step_by(2) {
        for y in (2..=8).step_by(2) {
            expected.push((x, y));
        }
    }
    expected.sort();
    assert_eq!(found, expected);
}

#[test]
fn not_ready_tick_changes_nothing() {
    let mut inv = Invaders::new();
    let before = positions(&inv);
    // The countdown starts at 2000 ms; anything short of it moves nobody.
    assert!(!inv.update(0));
    assert!(!inv.update(1999));
    assert_eq!(positions(&inv), before);
    // The accumulated 1999 ms stay: 1 ms more fires.
    assert!(inv.update(1));
}

#[test]
fn lateral_step_keeps_rows() {
    let mut inv = Invaders::new();
    let before = positions(&inv);
    assert!(inv.update(2000));
    let after = positions(&inv);
    assert_eq!(after.len(), before.len());
    for (b, a) in before.iter().zip(after.iter()) {
        assert_eq!(a.0, b.0 + 1, "moving right shifts every column by one");
        assert_eq!(a.1, b.1, "a lateral step leaves every row unchanged");
    }
}

#[test]
fn flip_happens_exactly_at_the_boundary_tick() {
    // Two enemies moving right; the tick that brings the maximum column to
    // the last index is still a lateral step, the flip and descent come on
    // the next ready tick.
    let mut inv = Invaders {
        army: vec![Invader { x: 36, y: 2 }, Invader { x: 38, y: 2 }],
        move_timer: Timer::from_millis(2000),
        direction: 1,
    };
    assert!(inv.update(2000));
    assert_eq!(positions(&inv), vec![(37, 2), (39, 2)], "no flip before the boundary");
    assert!(inv.update(2000));
    assert_eq!(positions(&inv), vec![(37, 3), (39, 3)], "descent at the boundary tick");
    // The direction is now left: the next ready tick moves one column left,
    // under the shortened countdown (1750 ms).
    assert!(!inv.update(1749));
    assert!(inv.update(1));
    assert_eq!(positions(&inv), vec![(36, 3), (38, 3)]);
}

#[test]
fn speedup_floor_holds_after_many_descents() {
    // A single enemy bounces between the walls; every bounce is a descent
    // that shortens the countdown by 250 ms until the floor.
    let mut inv = Invaders {
        army: vec![Invader { x: 2, y: 2 }],
        move_timer: Timer::from_millis(2000),
        direction: 1,
    };
    let mut descents = 0;
    let mut last_interval = 2000u64;
    while descents < 10 {
        let y_before = inv.army[0].y;
        tick(&mut inv);
        if inv.army[0].y == y_before + 1 {
            descents += 1;
            let interval = inv.move_timer.duration_ms;
            assert!(interval <= last_interval, "the countdown never grows across descents");
            assert!(interval >= 250, "the countdown never drops below the floor");
            let expected = 2000u64.saturating_sub(250 * descents as u64).max(250);
            assert_eq!(interval, expected);
            last_interval = interval;
        }
    }
    // At the floor: 249 ms of elapsed time do not fire, 250 ms do.
    assert_eq!(inv.move_timer.duration_ms, 250);
    assert!(!inv.update(249));
    assert!(inv.update(1));
}

#[test]
fn kill_invader_round_trip() {
    let mut inv = Invaders::new();
    let before = inv.army.len();
    assert!(inv.kill_invader_at(2, 2));
    assert_eq!(inv.army.len(), before - 1);
    // The cell is empty now: a second attempt at the same coordinates misses.
    assert!(!inv.kill_invader_at(2, 2));
    assert_eq!(inv.army.len(), before - 1);
    // A miss on a never-populated cell is a no-op, not an error.
    assert!(!inv.kill_invader_at(3, 3));
    assert_eq!(inv.army.len(), before - 1);
}

#[test]
fn all_kill_iff_empty() {
    let mut inv = Invaders::new();
    assert!(!inv.all_kill());
    let targets = positions(&inv);
    for (i, (x, y)) in targets.iter().enumerate() {
        assert!(!inv.all_kill());
        assert!(inv.kill_invader_at(*x, *y));
        if i + 1 < targets.len() {
            assert!(!inv.all_kill());
        }
    }
    // True immediately after removing the last enemy.
    assert!(inv.all_kill());
}

#[test]
fn has_landed_iff_some_row_at_or_past_bottom() {
    let mut inv = Invaders::new();
    // The deepest spawned row is 8.
    assert!(inv.has_landed(8));
    assert!(inv.has_landed(0));
    assert!(!inv.has_landed(9));
    assert!(!inv.reached_bottom());
    // An empty formation has landed nowhere, whatever the bottom is.
    for (x, y) in positions(&inv) {
        assert!(inv.kill_invader_at(x, y));
    }
    assert!(!inv.has_landed(0));
    assert!(!inv.has_landed(NUM_ROWS - 1));
    assert!(!inv.reached_bottom());
}

#[test]
fn lone_enemy_eventually_reaches_bottom() {
    let mut inv = Invaders {
        army: vec![Invader { x: 20, y: 2 }],
        move_timer: Timer::from_millis(2000),
        direction: 1,
    };
    let mut guard = 0;
    while !inv.reached_bottom() {
        tick(&mut inv);
        guard += 1;
        assert!(guard < 10_000, "the formation must keep descending");
    }
    assert_eq!(inv.army[0].y, NUM_ROWS - 1);
}

#[test]
fn empty_formation_still_ticks() {
    let mut inv = Invaders::new();
    for (x, y) in positions(&inv) {
        assert!(inv.kill_invader_at(x, y));
    }
    assert!(inv.all_kill());
    // A ready tick still counts as a move, but there is nobody to move.
    assert!(!inv.update(1999));
    assert!(inv.update(1));
    assert!(inv.all_kill());
    assert_eq!(inv.army.len(), 0);
}
