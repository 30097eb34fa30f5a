use polycycle::geometry::Point;
use polycycle::polygon::{edge_table, place_vertex, vertex_angle, Slot};
use polycycle::scheduler::{is_idle, progress, Command, CycleState, Scheduler};
use polycycle::units::ONE;

fn triangle() -> Vec<Slot> {
    let a = Point { x: 138_564, y: 80_000 };
    let b = Point { x: -138_564, y: 80_000 };
    let c = Point { x: 0, y: -160_000 };
    edge_table(&vec![a, b, c], 0)
}

#[test]
fn a_report_of_none_running_is_idle() {
    assert!(is_idle(Some(0)));
}

#[test]
fn a_missing_report_is_idle() {
    assert!(is_idle(None));
}

#[test]
fn a_report_of_one_or_more_running_is_not_idle() {
    assert!(!is_idle(Some(1)));
    assert!(!is_idle(Some(2)));
    assert!(!is_idle(Some(usize::MAX)));
}

#[test]
fn progress_is_the_share_of_the_span() {
    assert_eq!(progress(0, 900), 0);
    assert_eq!(progress(450, 900), 500_000);
    assert_eq!(progress(300, 900), 333_333);
    assert_eq!(progress(899, 900), 998_888);
}

#[test]
fn progress_stops_at_one() {
    assert_eq!(progress(900, 900), ONE);
    assert_eq!(progress(1000, 900), ONE);
    assert_eq!(progress(u64::MAX, 1), ONE);
}

#[test]
fn progress_over_no_span_is_complete() {
    assert_eq!(progress(0, 0), ONE);
    assert_eq!(progress(5, 0), ONE);
}

#[test]
fn progress_over_the_longest_span() {
    assert_eq!(progress(u64::MAX - 1, u64::MAX), 999_999);
    assert_eq!(progress(u64::MAX / 2, u64::MAX), 499_999);
}

#[test]
fn a_new_scheduler_starts_on_the_first_slot_with_its_pulse() {
    let table = triangle();
    let (scheduler, command) = Scheduler::new(table.clone(), 900);
    assert_eq!(command, Command::StartPulse { label: 0 });
    assert_eq!(scheduler.slots(), &table);
    assert_eq!(scheduler.dwell_duration(), 900);
    assert_eq!(
        scheduler.state(),
        CycleState {
            slot_index: 0,
            dwell_elapsed: 0,
            label: 0,
            start: table[0].start,
            end: table[0].end,
        }
    );
}

#[test]
fn the_first_pulse_is_that_of_the_first_label() {
    let p = Point { x: 0, y: 0 };
    let q = Point { x: 1, y: 1 };
    let table = vec![Slot { start: p, end: q, label: 77 }, Slot { start: q, end: p, label: 5 }];
    let (_, command) = Scheduler::new(table, 10);
    assert_eq!(command, Command::StartPulse { label: 77 });
}

#[test]
fn scheduler_advances_once_after_the_dwell() {
    let (mut scheduler, _) = Scheduler::new(triangle(), 900);
    assert_eq!(scheduler.tick(901, Some(0)), Command::StartPulse { label: 1 });
    let state = scheduler.state();
    assert_eq!(state.slot_index, 1);
    assert_eq!(state.dwell_elapsed, 0);
}

#[test]
fn scheduler_stays_when_the_dwell_is_just_reached() {
    let (mut scheduler, _) = Scheduler::new(triangle(), 900);
    assert_eq!(scheduler.tick(900, Some(0)), Command::Wait);
    assert_eq!(scheduler.state().slot_index, 0);
    assert_eq!(scheduler.state().dwell_elapsed, 900);
    assert_eq!(scheduler.tick(1, Some(0)), Command::StartPulse { label: 1 });
    assert_eq!(scheduler.state().slot_index, 1);
}

#[test]
fn scheduler_never_advances_while_the_label_is_running() {
    let (mut scheduler, _) = Scheduler::new(triangle(), 900);
    for _ in 0..1000 {
        assert_eq!(scheduler.tick(90, Some(1)), Command::Wait);
        assert_eq!(scheduler.state().slot_index, 0);
    }
    assert_eq!(scheduler.state().dwell_elapsed, 90_000);
    assert_eq!(scheduler.state().label, 0);
}

#[test]
fn scheduler_advances_as_soon_as_the_label_falls_idle() {
    let (mut scheduler, _) = Scheduler::new(triangle(), 900);
    assert_eq!(scheduler.tick(2000, Some(3)), Command::Wait);
    assert_eq!(scheduler.tick(0, Some(0)), Command::StartPulse { label: 1 });
    assert_eq!(scheduler.state().dwell_elapsed, 0);
}

#[test]
fn scheduler_goes_on_when_the_report_is_missing() {
    let (mut scheduler, _) = Scheduler::new(triangle(), 900);
    assert_eq!(scheduler.tick(901, None), Command::StartPulse { label: 1 });
    assert_eq!(scheduler.state().slot_index, 1);
}

#[test]
fn scheduler_binds_label_and_end_points_of_the_new_slot() {
    let table = triangle();
    let (mut scheduler, _) = Scheduler::new(table.clone(), 900);
    scheduler.tick(901, Some(0));
    assert_eq!(
        scheduler.state(),
        CycleState {
            slot_index: 1,
            dwell_elapsed: 0,
            label: table[1].label,
            start: table[1].start,
            end: table[1].end,
        }
    );
}

#[test]
fn scheduler_returns_to_the_first_slot_after_the_last() {
    let (mut scheduler, _) = Scheduler::new(triangle(), 900);
    assert_eq!(scheduler.tick(901, Some(0)), Command::StartPulse { label: 1 });
    assert_eq!(scheduler.tick(901, Some(0)), Command::StartPulse { label: 2 });
    assert_eq!(scheduler.tick(901, Some(0)), Command::StartPulse { label: 0 });
    assert_eq!(scheduler.state().slot_index, 0);
    assert_eq!(scheduler.state().start, triangle()[0].start);
}

#[test]
fn scheduler_over_one_slot_pulses_it_again() {
    let p = Point { x: 0, y: 0 };
    let q = Point { x: 1, y: 1 };
    let (mut scheduler, _) = Scheduler::new(vec![Slot { start: p, end: q, label: 4 }], 10);
    assert_eq!(scheduler.tick(11, Some(0)), Command::StartPulse { label: 4 });
    assert_eq!(scheduler.state().slot_index, 0);
    assert_eq!(scheduler.state().dwell_elapsed, 0);
}

#[test]
fn scheduler_with_no_dwell_advances_on_any_time() {
    let (mut scheduler, _) = Scheduler::new(triangle(), 0);
    assert_eq!(scheduler.tick(0, Some(0)), Command::Wait);
    assert_eq!(scheduler.tick(1, Some(0)), Command::StartPulse { label: 1 });
}

#[test]
fn scheduler_keeps_its_table_and_dwell() {
    let table = triangle();
    let (mut scheduler, _) = Scheduler::new(table.clone(), 900);
    for dt in [0, 500, 500, 10, 5000, 1] {
        scheduler.tick(dt, Some(0));
        assert_eq!(scheduler.slots(), &table);
        assert_eq!(scheduler.dwell_duration(), 900);
        assert!(scheduler.state().slot_index < table.len());
    }
}

#[test]
fn scheduler_counts_time_up_to_the_limit() {
    let (mut scheduler, _) = Scheduler::new(triangle(), u64::MAX);
    assert_eq!(scheduler.tick(u64::MAX - 1, Some(0)), Command::Wait);
    assert_eq!(scheduler.tick(1, Some(0)), Command::Wait);
    assert_eq!(scheduler.state().dwell_elapsed, u64::MAX);
    assert_eq!(scheduler.travel_raw(), ONE);
}

#[test]
fn travel_raw_follows_the_dwell() {
    let (mut scheduler, _) = Scheduler::new(triangle(), 900);
    assert_eq!(scheduler.travel_raw(), 0);
    scheduler.tick(450, Some(0));
    assert_eq!(scheduler.travel_raw(), 500_000);
    scheduler.tick(450, Some(1));
    assert_eq!(scheduler.travel_raw(), ONE);
    scheduler.tick(450, Some(1));
    assert_eq!(scheduler.travel_raw(), ONE);
    scheduler.tick(1, Some(0));
    assert_eq!(scheduler.travel_raw(), 0);
}

#[test]
fn lit_segment_runs_from_the_start_of_the_active_edge() {
    let table = triangle();
    let (mut scheduler, _) = Scheduler::new(table.clone(), 900);
    assert_eq!(scheduler.lit_segment(0), (table[0].start, table[0].start));
    assert_eq!(scheduler.lit_segment(ONE), (table[0].start, table[0].end));
    assert_eq!(scheduler.lit_segment(500_000), (table[0].start, Point { x: 0, y: 80_000 }));
    scheduler.tick(901, None);
    assert_eq!(scheduler.lit_segment(ONE), (table[1].start, table[1].end));
}

#[test]
fn lit_band_lies_on_the_active_edge() {
    let table = triangle();
    let (scheduler, _) = Scheduler::new(table.clone(), 900);
    let (start, end) = scheduler.lit_band(500_000, 200_000);
    assert_eq!(start.y, 80_000);
    assert_eq!(end.y, 80_000);
    assert!(end.x < start.x);
    assert!((start.x - 110_851).abs() <= 1);
    assert!((end.x + 110_851).abs() <= 1);
}

#[test]
fn end_to_end_triangle_cycle() {
    let n = 3;
    let base = 60_000_000;
    let radius = 160_000;
    let mut vertices = Vec::new();
    for index in 0..n {
        let angle = vertex_angle(n, base, index);
        let radians = (angle.numer as f64 / angle.denom as f64 / 1_000_000.0).to_radians();
        let sine = (radians.sin() * ONE as f64).round() as i32;
        let cosine = (radians.cos() * ONE as f64).round() as i32;
        vertices.push(place_vertex(radius, sine, cosine));
    }
    let table = edge_table(&vertices, 0);
    assert_eq!(table.len(), 3);

    // at time zero: slot 0, and the pulse of label 0 is started
    let (mut scheduler, first) = Scheduler::new(table.clone(), 900);
    assert_eq!(first, Command::StartPulse { label: 0 });
    assert_eq!(scheduler.state().slot_index, 0);
    let mut pulses = vec![0u64];

    for dt in [500u64, 500] {
        if let Command::StartPulse { label } = scheduler.tick(dt, Some(0)) {
            pulses.push(label);
        }
    }
    assert_eq!(pulses, vec![0, 1]);
    let state = scheduler.state();
    assert_eq!(state.slot_index, 1);
    assert_eq!(state.dwell_elapsed, 0);
    assert_eq!(state.label, 1);
    assert_eq!(state.start, vertices[1]);
    assert_eq!(state.end, vertices[2]);
}
