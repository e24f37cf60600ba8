use invaders::frame::new_frame;
use invaders::frame::EMPTY_GLYPH;
use invaders::game::evaluate_status;
use invaders::game::GameStatus;
use invaders::invaders::Invaders;
use invaders::render::diff_writes;
use invaders::timer::Timer;
use invaders::NUM_COLS;
use invaders::NUM_ROWS;

#[test]
fn new_frame_is_blank() {
    let f = new_frame();
    for x in 0..NUM_COLS {
        for y in 0..NUM_ROWS {
            assert_eq!(f.get(x, y), EMPTY_GLYPH);
        }
    }
}

#[test]
fn set_writes_one_cell_only() {
    let mut f = new_frame();
    f.set(3, 7, 'A');
    for x in 0..NUM_COLS {
        for y in 0..NUM_ROWS {
            let expected = if (x, y) == (3, 7) { 'A' } else { EMPTY_GLYPH };
            assert_eq!(f.get(x, y), expected);
        }
    }
    f.set(3, 7, '|');
    assert_eq!(f.get(3, 7), '|', "the last writer of a cell wins");
}

#[test]
fn diff_emits_one_write_per_changed_cell() {
    let last = new_frame();
    let mut curr = new_frame();
    curr.set(0, 0, 'A');
    curr.set(5, 9, 'x');
    curr.set(39, 19, '+');
    let writes = diff_writes(&last, &curr, false);
    assert_eq!(writes.len(), 3, "three cells changed, three writes");
    let mut got: Vec<(usize, usize, char)> = writes.iter().map(|w| (w.x, w.y, w.glyph)).collect();
    got.sort();
    assert_eq!(got, vec![(0, 0, 'A'), (5, 9, 'x'), (39, 19, '+')]);
}

#[test]
fn diff_of_identical_frames_is_empty() {
    let mut last = new_frame();
    let mut curr = new_frame();
    last.set(4, 4, 'x');
    curr.set(4, 4, 'x');
    let writes = diff_writes(&last, &curr, false);
    assert_eq!(writes.len(), 0);
}

#[test]
fn diff_clears_cells_that_emptied() {
    let mut last = new_frame();
    let curr = new_frame();
    last.set(10, 2, 'x');
    let writes = diff_writes(&last, &curr, false);
    assert_eq!(writes.len(), 1);
    assert_eq!((writes[0].x, writes[0].y, writes[0].glyph), (10, 2, EMPTY_GLYPH));
}

#[test]
fn full_paint_writes_every_non_empty_cell() {
    let mut last = new_frame();
    // On a full paint the previous frame is irrelevant.
    last.set(0, 0, 'Z');
    let mut curr = new_frame();
    curr.set(1, 1, 'A');
    curr.set(2, 2, 'x');
    let writes = diff_writes(&last, &curr, true);
    assert_eq!(writes.len(), 2);
    let mut got: Vec<(usize, usize, char)> = writes.iter().map(|w| (w.x, w.y, w.glyph)).collect();
    got.sort();
    assert_eq!(got, vec![(1, 1, 'A'), (2, 2, 'x')]);
}

#[test]
fn draw_paints_every_enemy_and_nothing_else() {
    let inv = Invaders::new();
    let mut f = new_frame();
    inv.draw(&mut f);
    for x in 0..NUM_COLS {
        for y in 0..NUM_ROWS {
            let occupied = inv.army.iter().any(|e| e.x == x && e.y == y);
            // A fresh formation has the whole countdown left: bright glyph.
            let expected = if occupied { 'x' } else { EMPTY_GLYPH };
            assert_eq!(f.get(x, y), expected);
        }
    }
}

#[test]
fn draw_blinks_with_the_countdown() {
    let mut inv = Invaders::new();
    // 1500 of 2000 ms elapsed: less than half the countdown left, dim glyph.
    assert!(!inv.update(1500));
    let mut f = new_frame();
    inv.draw(&mut f);
    assert_eq!(f.get(2, 2), '+');
}

#[test]
fn timer_accumulates_and_resets() {
    let mut t = Timer::from_millis(100);
    assert!(!t.ready());
    assert_eq!(t.time_left_ms(), 100);
    t.update(40);
    assert!(!t.ready());
    assert_eq!(t.time_left_ms(), 60);
    t.update(60);
    assert!(t.ready());
    assert_eq!(t.time_left_ms(), 0);
    // Elapsed time is capped at the duration.
    t.update(1000);
    assert_eq!(t.time_left_ms(), 0);
    t.reset();
    assert!(!t.ready());
    assert_eq!(t.duration_ms, 100);
    assert_eq!(t.time_left_ms(), 100);
}

#[test]
fn status_decision_order() {
    assert_eq!(evaluate_status(false, false, false), GameStatus::Running);
    assert_eq!(evaluate_status(true, false, false), GameStatus::Lost);
    assert_eq!(evaluate_status(false, true, false), GameStatus::Won);
    assert_eq!(evaluate_status(false, false, true), GameStatus::Lost);
    // Quitting takes precedence over everything else.
    assert_eq!(evaluate_status(true, true, true), GameStatus::Lost);
    // A cleared formation wins even if an enemy row index looks landed.
    assert_eq!(evaluate_status(false, true, true), GameStatus::Won);
}
