use golly::driver::{frame, Controls, Outcome, Pace};
use golly::grid::GollyBuff;
use golly::rule::parse_rule;

const QUIET: Controls =
    Controls { paint: None, toggle_pause: false, clear: false, quit: false, step: false };

fn blinker() -> GollyBuff {
    let mut grid = GollyBuff::new(5, 5);
    for index in [11, 12, 13] {
        grid.set_cell(index, true);
    }
    grid
}

fn alive_in(grid: &GollyBuff) -> Vec<usize> {
    (0..grid.pixels().len()).filter(|&i| grid.is_alive(i)).collect()
}

#[test]
fn paused_frame_without_input_changes_nothing() {
    let (survive, born) = parse_rule("23/3").unwrap();
    let mut grid = blinker();
    let outcome = frame(&mut grid, true, &QUIET, &survive, &born);
    assert_eq!(outcome, Outcome { paused: true, pace: None, quit: false });
    assert_eq!(alive_in(&grid), vec![11, 12, 13]);
}

#[test]
fn running_frame_advances_one_generation() {
    let (survive, born) = parse_rule("23/3").unwrap();
    let mut grid = blinker();
    let outcome = frame(&mut grid, false, &QUIET, &survive, &born);
    assert_eq!(outcome, Outcome { paused: false, pace: None, quit: false });
    assert_eq!(alive_in(&grid), vec![7, 12, 17]);
}

#[test]
fn unpausing_runs_at_once_and_asks_for_the_running_pace() {
    let (survive, born) = parse_rule("23/3").unwrap();
    let mut grid = blinker();
    let controls = Controls { toggle_pause: true, ..QUIET };
    let outcome = frame(&mut grid, true, &controls, &survive, &born);
    assert_eq!(outcome, Outcome { paused: false, pace: Some(Pace::Running), quit: false });
    assert_eq!(alive_in(&grid), vec![7, 12, 17]);
}

#[test]
fn pausing_stops_at_once_and_asks_for_the_idle_pace() {
    let (survive, born) = parse_rule("23/3").unwrap();
    let mut grid = blinker();
    let controls = Controls { toggle_pause: true, ..QUIET };
    let outcome = frame(&mut grid, false, &controls, &survive, &born);
    assert_eq!(outcome, Outcome { paused: true, pace: Some(Pace::Idle), quit: false });
    assert_eq!(alive_in(&grid), vec![11, 12, 13]);
}

#[test]
fn step_advances_a_paused_session_only() {
    let (survive, born) = parse_rule("23/3").unwrap();
    let controls = Controls { step: true, ..QUIET };
    let mut grid = blinker();
    let outcome = frame(&mut grid, true, &controls, &survive, &born);
    assert_eq!(outcome, Outcome { paused: true, pace: None, quit: false });
    assert_eq!(alive_in(&grid), vec![7, 12, 17]);
    let mut grid = blinker();
    frame(&mut grid, false, &controls, &survive, &born);
    assert_eq!(alive_in(&grid), vec![7, 12, 17]);
}

#[test]
fn step_counts_in_the_frame_that_pauses() {
    let (survive, born) = parse_rule("23/3").unwrap();
    let controls = Controls { toggle_pause: true, step: true, ..QUIET };
    let mut grid = blinker();
    let outcome = frame(&mut grid, false, &controls, &survive, &born);
    assert!(outcome.paused);
    assert_eq!(alive_in(&grid), vec![7, 12, 17]);
    let mut grid = blinker();
    let outcome = frame(&mut grid, true, &controls, &survive, &born);
    assert!(!outcome.paused);
    assert_eq!(alive_in(&grid), vec![7, 12, 17]);
}

#[test]
fn painting_brings_the_cell_to_life() {
    let (survive, born) = parse_rule("23/3").unwrap();
    let mut grid = GollyBuff::new(5, 4);
    let controls = Controls { paint: Some((3, 2)), ..QUIET };
    frame(&mut grid, true, &controls, &survive, &born);
    assert_eq!(alive_in(&grid), vec![13]);
    let controls = Controls { paint: Some((0, 0)), ..QUIET };
    frame(&mut grid, true, &controls, &survive, &born);
    assert_eq!(alive_in(&grid), vec![0, 13]);
    let controls = Controls { paint: Some((4, 3)), ..QUIET };
    frame(&mut grid, true, &controls, &survive, &born);
    assert_eq!(alive_in(&grid), vec![0, 13, 19]);
}

#[test]
fn painted_cell_takes_part_in_the_generation_of_its_frame() {
    let (survive, born) = parse_rule("23/3").unwrap();
    let mut grid = GollyBuff::new(5, 5);
    grid.set_cell(11, true);
    grid.set_cell(12, true);
    let controls = Controls { paint: Some((3, 2)), ..QUIET };
    frame(&mut grid, false, &controls, &survive, &born);
    assert_eq!(alive_in(&grid), vec![7, 12, 17]);
}

#[test]
fn clear_kills_every_cell() {
    let (survive, born) = parse_rule("23/3").unwrap();
    let controls = Controls { clear: true, ..QUIET };
    for paused in [true, false] {
        let mut grid = blinker();
        let outcome = frame(&mut grid, paused, &controls, &survive, &born);
        assert_eq!(outcome, Outcome { paused, pace: None, quit: false });
        assert_eq!(alive_in(&grid), Vec::<usize>::new());
    }
}

#[test]
fn clear_wipes_the_painted_cell_too() {
    let (survive, born) = parse_rule("23/3").unwrap();
    let mut grid = blinker();
    let controls = Controls { paint: Some((0, 0)), clear: true, ..QUIET };
    frame(&mut grid, true, &controls, &survive, &born);
    assert_eq!(alive_in(&grid), Vec::<usize>::new());
}

#[test]
fn step_follows_the_clear() {
    let (survive, born) = parse_rule("/0").unwrap();
    let mut grid = blinker();
    let controls = Controls { clear: true, step: true, ..QUIET };
    frame(&mut grid, true, &controls, &survive, &born);
    assert_eq!(alive_in(&grid), (0..25).collect::<Vec<usize>>());
}

#[test]
fn quitting_takes_no_further_step() {
    let (survive, born) = parse_rule("23/3").unwrap();
    let mut grid = blinker();
    let controls = Controls { quit: true, step: true, ..QUIET };
    let outcome = frame(&mut grid, true, &controls, &survive, &born);
    assert_eq!(outcome, Outcome { paused: true, pace: None, quit: true });
    assert_eq!(alive_in(&grid), vec![11, 12, 13]);
}

#[test]
fn quitting_a_running_session_still_runs_its_generation() {
    let (survive, born) = parse_rule("23/3").unwrap();
    let mut grid = blinker();
    let controls = Controls { quit: true, ..QUIET };
    let outcome = frame(&mut grid, false, &controls, &survive, &born);
    assert_eq!(outcome, Outcome { paused: false, pace: None, quit: true });
    assert_eq!(alive_in(&grid), vec![7, 12, 17]);
}
