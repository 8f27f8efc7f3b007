use std::time::Duration;

use iboardbot::geometry::{CoordinatePair, Polyline};
use iboardbot::task::{PrintMode, PrintTask};

#[test]
fn print_mode_to_print_task_once() {
    let mode = PrintMode::Once;
    let polylines = vec![];
    match mode.to_print_task(polylines.clone()) {
        PrintTask::Once(p) => assert_eq!(p, polylines),
        t @ _ => panic!("Task was {:?}", t),
    }
}

#[test]
fn print_mode_to_print_task_every() {
    let mode = PrintMode::Schedule5;
    let polylines = vec![];
    match mode.to_print_task(polylines.clone()) {
        PrintTask::Scheduled(d, p) => {
            assert_eq!(d, Duration::from_secs(60 * 5));
            assert_eq!(p, vec![polylines]);
        },
        t @ _ => panic!("Task was {:?}", t),
    }
}

#[test]
fn test_print_mode_intervals() {
    let polylines: Vec<Polyline> = vec![vec![CoordinatePair::new(1, 2), CoordinatePair::new(3, 4)]];
    for (mode, minutes) in [
        (PrintMode::Schedule5, 5),
        (PrintMode::Schedule15, 15),
        (PrintMode::Schedule30, 30),
        (PrintMode::Schedule60, 60),
    ] {
        match mode.to_print_task(polylines.clone()) {
            PrintTask::Scheduled(interval, sets) => {
                assert_eq!(interval, Duration::from_secs(60 * minutes));
                assert_eq!(interval.as_nanos(), 60 * minutes as u128 * 1_000_000_000);
                assert_eq!(sets, vec![polylines.clone()]);
            },
            task => panic!("Task was {:?}", task),
        }
    }
}

#[test]
fn test_print_mode_once_keeps_the_drawing() {
    let polylines: Vec<Polyline> = vec![vec![CoordinatePair::new(1, 2), CoordinatePair::new(3, 4)]];
    match PrintMode::Once.to_print_task(polylines.clone()) {
        PrintTask::Once(p) => assert_eq!(p, polylines),
        task => panic!("Task was {:?}", task),
    }
}

#[test]
fn test_is_printable() {
    let small: Vec<Polyline> = vec![vec![CoordinatePair::new(1, 2), CoordinatePair::new(3, 4)]];
    let most = 3999 * 254;
    let large: Vec<Polyline> = vec![vec![CoordinatePair::new(1, 2); most - 36 - 2]];
    let too_large: Vec<Polyline> = vec![vec![CoordinatePair::new(1, 2); most - 36 - 1]];
    assert!(PrintTask::Once(small.clone()).is_printable());
    assert!(PrintTask::Once(large.clone()).is_printable());
    assert!(!PrintTask::Once(too_large.clone()).is_printable());
    let second = Duration::from_secs(1);
    assert!(PrintTask::Scheduled(second, vec![]).is_printable());
    assert!(PrintTask::Scheduled(second, vec![small.clone(), large]).is_printable());
    assert!(!PrintTask::Scheduled(second, vec![small, too_large]).is_printable());
}
