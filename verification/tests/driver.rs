use std::time::Duration;

use iboardbot::driver::{
    decide, Driver, Intake, Reaction, Verdict, INITIAL_DELAY_SECS, TIMEOUT_MS_CHANNEL,
    TIMEOUT_MS_SERIAL,
};
use iboardbot::geometry::{CoordinatePair, Polyline};
use iboardbot::protocol::Cue;
use iboardbot::queue::PendingQueue;
use iboardbot::sketch::Sketch;
use iboardbot::task::PrintTask;

fn line(from: (i64, i64), to: (i64, i64)) -> Vec<Polyline> {
    vec![vec![CoordinatePair::new(from.0, from.1), CoordinatePair::new(to.0, to.1)]]
}

/// A drawing of two blocks.
fn long_drawing() -> Vec<Polyline> {
    let mut polyline = vec![];
    for i in 0..300 {
        polyline.push(CoordinatePair::new(i, i));
    }
    vec![polyline]
}

fn blocks_of(polylines: &Vec<Polyline>) -> Vec<Vec<u8>> {
    Sketch::new(polylines).into_blocks(true)
}

fn drain(driver: &mut Driver) -> Vec<Vec<u8>> {
    let mut blocks = vec![];
    while let Some(block) = driver.on_cue(Cue::Ready) {
        blocks.push(block);
    }
    blocks
}

#[test]
fn test_constants_of_the_loop() {
    assert_eq!(INITIAL_DELAY_SECS, 2);
    assert_eq!(TIMEOUT_MS_SERIAL, 1000);
    assert_eq!(TIMEOUT_MS_CHANNEL, 50);
}

#[test]
fn test_new_driver() {
    let driver = Driver::new();
    assert_eq!(driver.current_block(), 0);
    assert_eq!(driver.pending(), 0);
    assert!(!driver.is_scheduled());
}

#[test]
fn test_decide() {
    assert_eq!(decide(Cue::Ready, 0), Verdict::Send);
    assert_eq!(decide(Cue::Ready, 7), Verdict::Send);
    assert_eq!(decide(Cue::Ack(1), 0), Verdict::Send);
    assert_eq!(decide(Cue::Ack(1), 1), Verdict::Send);
    assert_eq!(decide(Cue::Ack(1), 7), Verdict::Send);
    assert_eq!(decide(Cue::Ack(7), 7), Verdict::Send);
    assert_eq!(decide(Cue::Ack(0), 0), Verdict::Send);
    assert_eq!(decide(Cue::Ack(12), 7), Verdict::Resync);
    assert_eq!(decide(Cue::Ack(8), 7), Verdict::Resync);
    assert_eq!(decide(Cue::Ack(2), 0), Verdict::Resync);
    assert_eq!(decide(Cue::Ack(6), 7), Verdict::Hold);
    assert_eq!(decide(Cue::Ack(2), 7), Verdict::Hold);
    assert_eq!(decide(Cue::Ack(0), 7), Verdict::Hold);
    assert_eq!(decide(Cue::Unreadable, 7), Verdict::Hold);
    assert_eq!(decide(Cue::Other, 7), Verdict::Hold);
}

#[test]
fn test_once_task() {
    let polylines = line((0, 0), (100, 0));
    let mut driver = Driver::new();
    let reaction = driver.accept(PrintTask::Once(polylines.clone()));
    assert!(matches!(reaction, Reaction::Cancel));
    assert!(!driver.is_scheduled());
    assert_eq!(driver.pending(), 1);

    // Lines that are no cue send nothing.
    assert_eq!(driver.on_line("booting\n"), None);
    assert_eq!(driver.on_line("CL STATUS=BUSY\n"), None);
    assert_eq!(driver.current_block(), 0);

    // After the first READY the driver transmits block 1 ...
    let sent = driver.on_line("CL STATUS=READY\n");
    assert_eq!(sent, Some(blocks_of(&polylines)[0].clone()));
    assert_eq!(driver.current_block(), 1);
    assert_eq!(driver.pending(), 0);

    // ... and no further blocks until another cue; and then there is none.
    assert_eq!(driver.on_line("\n"), None);
    assert_eq!(driver.on_line("CL STATUS=READY\n"), None);
    assert_eq!(driver.on_line("CL STATUS=ACK&NUM=1\n"), None);
    assert_eq!(driver.current_block(), 1);
}

#[test]
fn test_one_block_per_cue() {
    let polylines = long_drawing();
    let blocks = blocks_of(&polylines);
    assert_eq!(blocks.len(), 2);
    let mut driver = Driver::new();
    driver.accept(PrintTask::Once(polylines));
    assert_eq!(driver.pending(), 2);
    assert_eq!(driver.on_line("CL STATUS=READY"), Some(blocks[0].clone()));
    assert_eq!(driver.pending(), 1);
    assert_eq!(driver.current_block(), 1);
    // An acknowledgement of another block than the last holds the next one back.
    assert_eq!(driver.on_line("CL STATUS=ACK&NUM=0"), None);
    assert_eq!(driver.pending(), 1);
    assert_eq!(driver.on_line("CL STATUS=ACK&NUM=1"), Some(blocks[1].clone()));
    assert_eq!(driver.current_block(), 2);
    assert_eq!(driver.pending(), 0);
}

#[test]
fn test_schedule_rotation() {
    let a = line((0, 0), (100, 0));
    let b = line((50, 50), (60, 60));
    let mut driver = Driver::new();
    let reaction = driver.accept(PrintTask::Scheduled(Duration::from_secs(1), vec![a.clone(), b.clone()]));
    match reaction {
        Reaction::Schedule(delay, period) => {
            assert_eq!(delay, Duration::from_secs(2));
            assert_eq!(period, Duration::from_secs(1));
        },
        other => panic!("Reaction was {:?}", other),
    }
    assert!(driver.is_scheduled());
    assert_eq!(driver.pending(), 0);
    for _ in 0..4 {
        driver.fire();
    }
    let mut expected = vec![];
    for drawing in [&a, &b, &a, &b] {
        expected.extend(blocks_of(drawing));
    }
    assert_eq!(drain(&mut driver), expected);
    assert!(driver.is_scheduled());
}

#[test]
fn test_rotation_over_three_drawings() {
    let sets = vec![line((0, 0), (1, 1)), long_drawing(), line((7, 7), (8, 8))];
    let mut driver = Driver::new();
    driver.accept(PrintTask::Scheduled(Duration::from_secs(60), sets.clone()));
    for turn in 0..7 {
        driver.fire();
        assert_eq!(drain(&mut driver), blocks_of(&sets[turn % 3]));
    }
}

#[test]
fn test_ack_reset_recovery() {
    let mut driver = Driver::new();
    let polylines = long_drawing();
    for _ in 0..4 {
        driver.accept(PrintTask::Once(polylines.clone()));
    }
    for _ in 0..7 {
        assert!(driver.on_line("CL STATUS=READY").is_some());
    }
    assert_eq!(driver.current_block(), 7);
    assert_eq!(driver.pending(), 1);

    let sent = driver.on_line("CL STATUS=ACK&NUM=12\n");
    assert_eq!(sent, Some(blocks_of(&polylines)[1].clone()));
    assert_eq!(driver.current_block(), 2);
    assert_eq!(driver.pending(), 0);
}

#[test]
fn test_ack_of_one_continues_without_reset() {
    let mut driver = Driver::new();
    let polylines = long_drawing();
    driver.accept(PrintTask::Once(polylines.clone()));
    driver.accept(PrintTask::Once(polylines));
    for _ in 0..3 {
        assert!(driver.on_cue(Cue::Ready).is_some());
    }
    assert_eq!(driver.current_block(), 3);
    assert!(driver.on_line("CL STATUS=ACK&NUM=1").is_some());
    assert_eq!(driver.current_block(), 4);
}

#[test]
fn test_out_of_sequence_and_unreadable_acks() {
    let mut driver = Driver::new();
    let polylines = long_drawing();
    for _ in 0..3 {
        driver.accept(PrintTask::Once(polylines.clone()));
    }
    for _ in 0..5 {
        assert!(driver.on_cue(Cue::Ready).is_some());
    }
    assert_eq!(driver.current_block(), 5);
    assert_eq!(driver.on_line("CL STATUS=ACK&NUM=3"), None);
    assert_eq!(driver.on_line("CL STATUS=ACK&NUM=4294967296"), None);
    assert_eq!(driver.on_line("CL STATUS=ACK&NUM="), None);
    assert_eq!(driver.on_line("CL STATUS=ACK&NUM=5x"), None);
    assert_eq!(driver.on_cue(Cue::Unreadable), None);
    assert_eq!(driver.on_cue(Cue::Other), None);
    assert_eq!(driver.current_block(), 5);
    assert_eq!(driver.pending(), 1);
    assert!(driver.on_line("CL STATUS=ACK&NUM=5").is_some());
    assert_eq!(driver.current_block(), 6);
}

#[test]
fn test_task_replacement() {
    let old = line((0, 0), (100, 0));
    let new = line((10, 10), (20, 20));
    let mut driver = Driver::new();
    driver.accept(PrintTask::Scheduled(Duration::from_secs(1), vec![old.clone()]));
    driver.fire();
    driver.fire();
    assert_eq!(driver.pending(), 2);

    let reaction = driver.accept(PrintTask::Once(new.clone()));
    assert!(matches!(reaction, Reaction::Cancel));
    assert!(!driver.is_scheduled());

    // A firing that still comes changes nothing.
    driver.fire();
    assert_eq!(driver.pending(), 3);

    // What was queued for the old task goes out first.
    let mut expected = vec![];
    expected.extend(blocks_of(&old));
    expected.extend(blocks_of(&old));
    expected.extend(blocks_of(&new));
    assert_eq!(drain(&mut driver), expected);
}

#[test]
fn test_schedule_replaces_schedule() {
    let a = line((0, 0), (100, 0));
    let b = line((50, 50), (60, 60));
    let c = line((70, 70), (80, 80));
    let mut driver = Driver::new();
    driver.accept(PrintTask::Scheduled(Duration::from_secs(1), vec![a.clone(), b.clone()]));
    driver.fire();
    let reaction = driver.accept(PrintTask::Scheduled(Duration::from_secs(9), vec![c.clone(), b.clone()]));
    match reaction {
        Reaction::Schedule(delay, period) => {
            assert_eq!(delay, Duration::from_secs(2));
            assert_eq!(period, Duration::from_secs(9));
        },
        other => panic!("Reaction was {:?}", other),
    }
    // The rotation starts again with the first drawing of the new task.
    driver.fire();
    driver.fire();
    let mut expected = vec![];
    for drawing in [&a, &c, &b] {
        expected.extend(blocks_of(drawing));
    }
    assert_eq!(drain(&mut driver), expected);
}

#[test]
fn test_empty_schedule_is_discarded() {
    let a = line((0, 0), (100, 0));
    let mut driver = Driver::new();
    driver.accept(PrintTask::Scheduled(Duration::from_secs(1), vec![a]));
    assert!(driver.is_scheduled());
    let reaction = driver.accept(PrintTask::Scheduled(Duration::from_secs(1), vec![]));
    assert!(matches!(reaction, Reaction::Cancel));
    assert!(!driver.is_scheduled());
    driver.fire();
    assert_eq!(driver.pending(), 0);
}

#[test]
fn test_fire_without_task() {
    let mut driver = Driver::new();
    driver.fire();
    assert_eq!(driver.pending(), 0);
    assert_eq!(driver.current_block(), 0);
}

#[test]
fn test_nothing_is_sent_from_an_empty_queue() {
    let mut driver = Driver::new();
    assert_eq!(driver.on_line("CL STATUS=READY"), None);
    assert_eq!(driver.on_line("CL STATUS=ACK&NUM=12"), None);
    assert_eq!(driver.on_cue(Cue::Ready), None);
    assert_eq!(driver.on_cue(Cue::Ack(12)), None);
    assert_eq!(driver.current_block(), 0);
}

#[test]
fn test_on_intake() {
    let a = line((0, 0), (100, 0));
    let mut driver = Driver::new();
    assert!(matches!(driver.on_intake(Intake::Timeout), Reaction::Continue));
    assert_eq!(driver.pending(), 0);
    assert!(matches!(driver.on_intake(Intake::Task(PrintTask::Once(a.clone()))), Reaction::Cancel));
    assert_eq!(driver.pending(), 1);
    assert!(matches!(
        driver.on_intake(Intake::Task(PrintTask::Scheduled(Duration::from_secs(3), vec![a]))),
        Reaction::Schedule(_, _)
    ));
    assert!(driver.is_scheduled());
    assert!(matches!(driver.on_intake(Intake::Timeout), Reaction::Continue));
    assert!(matches!(driver.on_intake(Intake::Disconnected), Reaction::Shutdown));
    assert!(driver.is_scheduled());
    assert_eq!(driver.pending(), 1);
}

#[test]
fn test_pending_queue() {
    let mut queue = PendingQueue::new();
    assert!(queue.is_empty());
    assert_eq!(queue.len(), 0);
    assert_eq!(queue.pop(), None);
    queue.append(vec![vec![1, 2], vec![3]]);
    queue.append(vec![]);
    queue.append(vec![vec![4]]);
    assert_eq!(queue.len(), 3);
    assert!(!queue.is_empty());
    assert_eq!(queue.pop(), Some(vec![1, 2]));
    assert_eq!(queue.pop(), Some(vec![3]));
    assert_eq!(queue.pop(), Some(vec![4]));
    assert_eq!(queue.pop(), None);
    assert!(queue.is_empty());
}
