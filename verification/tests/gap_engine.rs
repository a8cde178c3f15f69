use speedforge::gap_calculator::{calculate_gaps, GapTracker, Standing};
use speedforge::progress::Progress;

const SECOND: u64 = 1_000_000;

fn at(distance_fraction: u32, laps_completed: u32) -> Option<Progress> {
    Some(Progress { distance_fraction, laps_completed })
}

fn line(entity_index: usize, rank: usize, gap_to_ahead: i128, gap_to_leader: i128) -> Standing {
    Standing { entity_index, rank, gap_to_ahead, gap_to_leader }
}

#[test]
fn new_tracker_is_empty() {
    let tracker = GapTracker::new();
    assert_eq!(tracker.last_session_time(), 0);
    assert_eq!(tracker.crossing_time(0, 0), None);
}

#[test]
fn empty_tick_gives_empty_table() {
    let mut tracker = GapTracker::new();
    let table = calculate_gaps(&mut tracker, &vec![], 7 * SECOND);
    assert!(table.is_empty());
    assert_eq!(tracker.last_session_time(), 7 * SECOND);
}

#[test]
fn two_cars_without_common_checkpoint() {
    let mut tracker = GapTracker::new();
    let table = calculate_gaps(&mut tracker, &vec![at(100_000, 0), at(40_000, 0)], 10 * SECOND);
    assert_eq!(table, vec![line(0, 1, 0, 0), line(1, 2, 0, 0)]);
    assert_eq!(tracker.crossing_time(0, 2), Some(10 * SECOND));
    assert_eq!(tracker.crossing_time(1, 0), Some(10 * SECOND));
    assert_eq!(tracker.crossing_time(0, 0), None);
    assert_eq!(tracker.crossing_time(0, 1), None);

    let table = calculate_gaps(&mut tracker, &vec![at(120_000, 0), at(60_000, 0)], 10_500_000);
    assert_eq!(tracker.crossing_time(0, 2), Some(10 * SECOND));
    assert_eq!(tracker.crossing_time(1, 1), Some(10_500_000));
    assert_eq!(tracker.crossing_time(1, 0), Some(10 * SECOND));
    assert_eq!(table, vec![line(0, 1, 0, 0), line(1, 2, 0, 0)]);
}

#[test]
fn session_restart_clears_history() {
    let mut tracker = GapTracker::new();
    calculate_gaps(&mut tracker, &vec![at(10_000, 0)], 100 * SECOND);
    calculate_gaps(&mut tracker, &vec![at(60_000, 0)], 110 * SECOND);
    calculate_gaps(&mut tracker, &vec![at(110_000, 0)], 120 * SECOND);
    assert_eq!(tracker.crossing_time(0, 0), Some(100 * SECOND));
    assert_eq!(tracker.crossing_time(0, 1), Some(110 * SECOND));
    assert_eq!(tracker.crossing_time(0, 2), Some(120 * SECOND));

    let table = calculate_gaps(&mut tracker, &vec![at(20_000, 0)], 500_000);
    assert_eq!(table, vec![line(0, 1, 0, 0)]);
    assert_eq!(tracker.last_session_time(), 500_000);
    assert_eq!(tracker.crossing_time(0, 0), Some(500_000));
    assert_eq!(tracker.crossing_time(0, 1), None);
    assert_eq!(tracker.crossing_time(0, 2), None);
}

#[test]
fn restart_leaves_one_checkpoint_per_car() {
    let mut tracker = GapTracker::new();
    calculate_gaps(&mut tracker, &vec![at(0, 0), at(0, 0)], 50 * SECOND);
    calculate_gaps(&mut tracker, &vec![at(70_000, 0), at(55_000, 0)], 60 * SECOND);
    calculate_gaps(&mut tracker, &vec![at(130_000, 0), at(30_000, 1)], SECOND);
    for entity in 0..2usize {
        let mut held = 0;
        for checkpoint in 0..100u64 {
            if let Some(time) = tracker.crossing_time(entity, checkpoint) {
                assert_eq!(time, SECOND);
                held += 1;
            }
        }
        assert_eq!(held, 1);
    }
    assert_eq!(tracker.crossing_time(0, 2), Some(SECOND));
    assert_eq!(tracker.crossing_time(1, 20), Some(SECOND));
}

#[test]
fn equal_clock_is_no_restart() {
    let mut tracker = GapTracker::new();
    calculate_gaps(&mut tracker, &vec![at(0, 0)], 30 * SECOND);
    calculate_gaps(&mut tracker, &vec![at(50_000, 0)], 30 * SECOND);
    assert_eq!(tracker.crossing_time(0, 0), Some(30 * SECOND));
    assert_eq!(tracker.crossing_time(0, 1), Some(30 * SECOND));
}

#[test]
fn first_crossing_time_is_kept() {
    let mut tracker = GapTracker::new();
    calculate_gaps(&mut tracker, &vec![at(51_000, 0)], 4 * SECOND);
    calculate_gaps(&mut tracker, &vec![at(52_000, 0)], 5 * SECOND);
    calculate_gaps(&mut tracker, &vec![at(99_999, 0)], 6 * SECOND);
    assert_eq!(tracker.crossing_time(0, 1), Some(4 * SECOND));
}

#[test]
fn gap_is_read_at_latest_common_checkpoint() {
    let mut tracker = GapTracker::new();
    // both start in checkpoint 0
    let table = calculate_gaps(&mut tracker, &vec![at(10_000, 0), at(5_000, 0)], 1 * SECOND);
    assert_eq!(table, vec![line(0, 1, 0, 0), line(1, 2, 0, 0)]);
    // car 0 reaches checkpoint 1 at 5 s
    let table = calculate_gaps(&mut tracker, &vec![at(55_000, 0), at(30_000, 0)], 5 * SECOND);
    assert_eq!(table, vec![line(0, 1, 0, 0), line(1, 2, 0, 0)]);
    // car 1 reaches checkpoint 1 at 8 s: three seconds behind
    let table = calculate_gaps(&mut tracker, &vec![at(90_000, 0), at(51_000, 0)], 8 * SECOND);
    assert_eq!(
        table,
        vec![line(0, 1, 0, 0), line(1, 2, 3 * SECOND as i128, 3 * SECOND as i128)]
    );
    // car 0 moves on to checkpoint 2; the common checkpoint is still 1
    let table = calculate_gaps(&mut tracker, &vec![at(101_000, 0), at(70_000, 0)], 9 * SECOND);
    assert_eq!(
        table,
        vec![line(0, 1, 0, 0), line(1, 2, 3 * SECOND as i128, 3 * SECOND as i128)]
    );
}

#[test]
fn gaps_to_ahead_and_to_leader_differ() {
    let mut tracker = GapTracker::new();
    calculate_gaps(&mut tracker, &vec![at(0, 0), at(0, 0), at(0, 0)], 0);
    calculate_gaps(&mut tracker, &vec![at(50_000, 0), at(10_000, 0), at(5_000, 0)], 10 * SECOND);
    calculate_gaps(&mut tracker, &vec![at(60_000, 0), at(50_000, 0), at(20_000, 0)], 12 * SECOND);
    let table =
        calculate_gaps(&mut tracker, &vec![at(70_000, 0), at(65_000, 0), at(50_000, 0)], 17 * SECOND);
    assert_eq!(
        table,
        vec![
            line(0, 1, 0, 0),
            line(1, 2, 2 * SECOND as i128, 2 * SECOND as i128),
            line(2, 3, 5 * SECOND as i128, 7 * SECOND as i128),
        ]
    );
}

#[test]
fn overtake_shows_at_once() {
    let mut tracker = GapTracker::new();
    calculate_gaps(&mut tracker, &vec![at(0, 0), at(0, 0)], 0);
    let table = calculate_gaps(&mut tracker, &vec![at(50_000, 0), at(40_000, 0)], 4 * SECOND);
    assert_eq!(table[0].entity_index, 0);
    assert_eq!(table[1].entity_index, 1);
    let table = calculate_gaps(&mut tracker, &vec![at(60_000, 0), at(100_000, 0)], 6 * SECOND);
    assert_eq!(table[0], line(1, 1, 0, 0));
    // common checkpoint of the two is 0, where both were seen at time 0
    assert_eq!(table[1], line(0, 2, 0, 0));
}

#[test]
fn leader_has_no_gap() {
    let mut tracker = GapTracker::new();
    for step in 0..40u32 {
        let samples = vec![at(step * 30_000 % 1_000_000, step * 30_000 / 1_000_000), at(step * 20_000, 0), at(step * 25_000, 0)];
        let table = calculate_gaps(&mut tracker, &samples, step as u64 * SECOND);
        assert_eq!(table.len(), 3);
        assert_eq!(table[0].rank, 1);
        assert_eq!(table[0].gap_to_ahead, 0);
        assert_eq!(table[0].gap_to_leader, 0);
    }
}

#[test]
fn ranks_count_from_one_in_order_of_progress() {
    let mut tracker = GapTracker::new();
    let samples = vec![at(300_000, 1), at(900_000, 0), at(100_000, 2), at(0, 0)];
    let table = calculate_gaps(&mut tracker, &samples, SECOND);
    let order: Vec<usize> = table.iter().map(|s| s.entity_index).collect();
    let ranks: Vec<usize> = table.iter().map(|s| s.rank).collect();
    assert_eq!(order, vec![2, 0, 1, 3]);
    assert_eq!(ranks, vec![1, 2, 3, 4]);
}

#[test]
fn exchanging_progress_exchanges_rank() {
    let mut tracker = GapTracker::new();
    let table = calculate_gaps(&mut tracker, &vec![at(700_000, 3), at(200_000, 3)], SECOND);
    assert_eq!(table[0].entity_index, 0);
    assert_eq!(table[1].entity_index, 1);
    let mut tracker = GapTracker::new();
    let table = calculate_gaps(&mut tracker, &vec![at(200_000, 3), at(700_000, 3)], SECOND);
    assert_eq!(table[0].entity_index, 1);
    assert_eq!(table[1].entity_index, 0);
}

#[test]
fn equal_progress_ranks_lower_slot_first() {
    let mut tracker = GapTracker::new();
    let samples = vec![at(500_000, 2), at(500_000, 2), at(500_000, 2)];
    let first = calculate_gaps(&mut tracker, &samples, SECOND);
    let second = calculate_gaps(&mut tracker, &samples, SECOND);
    assert_eq!(first, vec![line(0, 1, 0, 0), line(1, 2, 0, 0), line(2, 3, 0, 0)]);
    assert_eq!(first, second);
}

#[test]
fn slot_without_data_is_left_out_and_keeps_its_history() {
    let mut tracker = GapTracker::new();
    calculate_gaps(&mut tracker, &vec![at(10_000, 0), at(20_000, 0)], 2 * SECOND);
    let table = calculate_gaps(&mut tracker, &vec![at(60_000, 0), None], 3 * SECOND);
    assert_eq!(table, vec![line(0, 1, 0, 0)]);
    assert_eq!(tracker.crossing_time(1, 0), Some(2 * SECOND));
    let table = calculate_gaps(&mut tracker, &vec![None, None], 4 * SECOND);
    assert!(table.is_empty());
    assert_eq!(tracker.crossing_time(0, 1), Some(3 * SECOND));
    // a shorter list of slots leaves the cars beyond it untouched
    let table = calculate_gaps(&mut tracker, &vec![at(70_000, 0)], 5 * SECOND);
    assert_eq!(table.len(), 1);
    assert_eq!(tracker.crossing_time(1, 0), Some(2 * SECOND));
}

#[test]
fn regression_of_one_car_keeps_history() {
    let mut tracker = GapTracker::new();
    calculate_gaps(&mut tracker, &vec![at(10_000, 0), at(5_000, 0)], 1 * SECOND);
    calculate_gaps(&mut tracker, &vec![at(160_000, 0), at(60_000, 0)], 2 * SECOND);
    // car 0 falls back into checkpoint 0, the clock goes on
    let table = calculate_gaps(&mut tracker, &vec![at(20_000, 0), at(70_000, 0)], 3 * SECOND);
    assert_eq!(tracker.crossing_time(0, 0), Some(1 * SECOND));
    assert_eq!(tracker.crossing_time(0, 3), Some(2 * SECOND));
    assert_eq!(tracker.crossing_time(1, 1), Some(2 * SECOND));
    // ranking goes by the progress as reported
    assert_eq!(table[0].entity_index, 1);
    assert_eq!(table[1], line(0, 2, 0, 0));
}

#[test]
fn lapped_car_is_measured_at_its_own_checkpoint() {
    let mut tracker = GapTracker::new();
    calculate_gaps(&mut tracker, &vec![at(0, 0), at(0, 0)], 0);
    calculate_gaps(&mut tracker, &vec![at(50_000, 0), at(0, 0)], 10 * SECOND);
    calculate_gaps(&mut tracker, &vec![at(50_000, 1), at(50_000, 0)], 90 * SECOND);
    let table = calculate_gaps(&mut tracker, &vec![at(60_000, 1), at(60_000, 0)], 91 * SECOND);
    assert_eq!(table[0], line(0, 1, 0, 0));
    assert_eq!(table[1], line(1, 2, 80 * SECOND as i128, 80 * SECOND as i128));
}

#[test]
fn times_do_not_decrease_along_checkpoints() {
    let mut tracker = GapTracker::new();
    let clocks = [5u64, 9, 2, 3, 3, 8, 20, 1, 4];
    let mut distance = 0u32;
    for (step, clock) in clocks.iter().enumerate() {
        distance += 35_000 * (step as u32 % 3);
        calculate_gaps(&mut tracker, &vec![at(distance % 1_000_000, distance / 1_000_000)], *clock);
        let mut latest = 0u64;
        for checkpoint in 0..40u64 {
            if let Some(time) = tracker.crossing_time(0, checkpoint) {
                assert!(latest <= time);
                latest = time;
            }
        }
    }
}

#[test]
fn large_inputs_are_taken() {
    let mut tracker = GapTracker::new();
    let samples = vec![at(u32::MAX, 1_000), at(0, 1_000)];
    let table = calculate_gaps(&mut tracker, &samples, u64::MAX);
    assert_eq!(table, vec![line(0, 1, 0, 0), line(1, 2, 0, 0)]);
    assert_eq!(tracker.last_session_time(), u64::MAX);
    let cp = (1_000u64 * 1_000_000 + u32::MAX as u64) / 50_000;
    assert_eq!(tracker.crossing_time(0, cp), Some(u64::MAX));
    assert_eq!(tracker.crossing_time(1, 20_000), Some(u64::MAX));
}
