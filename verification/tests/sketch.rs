use iboardbot::command::Command;
use iboardbot::geometry::{CoordinatePair, Polyline};
use iboardbot::sketch::Sketch;

/// A point given in millimetres, on the grid of tenths that the library takes.
fn pair(x: f64, y: f64) -> CoordinatePair {
    CoordinatePair::new((x * 10.0).round() as i64, (y * 10.0).round() as i64)
}

fn bytes_of(commands: &[Command]) -> Vec<u8> {
    let mut bytes = vec![];
    for command in commands {
        bytes.extend_from_slice(&command.to_bytes());
    }
    bytes
}

fn payload(blocks: &[Vec<u8>]) -> Vec<u8> {
    let mut bytes = vec![];
    for block in blocks {
        bytes.extend_from_slice(&block[6..]);
    }
    bytes
}

#[test]
fn test_empty_sketch() {
    let polylines: Vec<Polyline> = vec![];
    let sketch = Sketch::new(&polylines);
    let blocks = sketch.into_blocks(false);
    assert_eq!(blocks.len(), 1);
    assert_eq!(blocks[0], vec![
        0xfa, 0x9f, 0xa1, // Block start
        0xfa, 0x90, 0x01, // Block number 1
        0xfa, 0x1f, 0xa1, // Start drawing
        0xfa, 0x30, 0x00, // Pen lift
        0x00, 0x00, 0x00, // Move to 0,0
        0x00, 0x00, 0x00, // Move to 0,0
        0xfa, 0x20, 0x00, // Stop drawing
    ]);
}

#[test]
fn test_simple_block() {
    let polylines: Vec<Polyline> = vec![
        vec![
            pair(12.3, 45.6),
            pair(14.3, 47.6),
        ]
    ];
    let sketch = Sketch::new(&polylines);
    let blocks = sketch.into_blocks(false);
    assert_eq!(blocks.len(), 1);
    assert_eq!(blocks[0], vec![
        0xfa, 0x9f, 0xa1, // Block start
        0xfa, 0x90, 0x01, // Block number 1
        0xfa, 0x1f, 0xa1, // Start drawing
        0xfa, 0x30, 0x00, // Pen lift
        0x00, 0x00, 0x00, // Move to 0,0
        0x07, 0xb3, 0x06, // Move to 123,456
        0xfa, 0x40, 0x00, // Pen down
        0x08, 0xf2, 0xf2, // Move to 143,476
        0xfa, 0x30, 0x00, // Pen lift
        0x00, 0x00, 0x00, // Move to 0,0
        0xfa, 0x20, 0x00, // Stop drawing
    ]);
}

#[test]
fn test_full_block() {
    let mut polyline = vec![pair(1.0, 1.0)];
    for _ in 0..123 {
        polyline.push(pair(5.0, 10.0));
        polyline.push(pair(2.0, 4.0));
    }
    let polylines = vec![polyline];
    let sketch = Sketch::new(&polylines);
    let blocks = sketch.into_blocks(false);
    assert_eq!(blocks.len(), 1);
    assert_eq!(blocks[0].len(), 768);
}

#[test]
fn test_two_blocks() {
    let mut polyline = vec![pair(1.0, 1.0)];
    for _ in 0..124 {
        polyline.push(pair(5.0, 10.0));
        polyline.push(pair(2.0, 4.0));
    }
    let polylines = vec![polyline];
    let sketch = Sketch::new(&polylines);
    let blocks = sketch.into_blocks(false);
    assert_eq!(blocks.len(), 2);
    assert_eq!(blocks[0].len(), 768);
    assert_eq!(blocks[1].len(), 12);
    assert_eq!(blocks[0][3..6], [0xfa, 0x90, 0x01]); // Block 1
    assert_eq!(blocks[1][3..6], [0xfa, 0x90, 0x02]); // Block 2
}

#[test]
fn test_empty_sketch_is_21_bytes() {
    let polylines: Vec<Polyline> = vec![];
    let blocks = Sketch::new(&polylines).into_blocks(false);
    assert_eq!(blocks.len(), 1);
    assert_eq!(blocks[0].len(), 21);
}

#[test]
fn test_overflow_polyline_is_clamped() {
    // 400 mm is right of the board, -3 mm is above it.
    let polylines: Vec<Polyline> = vec![vec![pair(400.0, -3.0), pair(-20.0, 500.0)]];
    let blocks = Sketch::new(&polylines).into_blocks(false);
    assert_eq!(blocks.len(), 1);
    let expected = bytes_of(&[
        Command::BlockStart,
        Command::BlockNumber(1),
        Command::StartDrawing,
        Command::PenLift,
        Command::Move(0, 0),
        Command::Move(3580, 1230),
        Command::PenDown,
        Command::Move(0, 0),
        Command::PenLift,
        Command::Move(0, 0),
        Command::StopDrawing,
    ]);
    assert_eq!(blocks[0], expected);
    assert_eq!(blocks[0][15..18], [0xdf, 0xc4, 0xce]);
}

#[test]
fn test_short_polylines_are_skipped() {
    let polylines: Vec<Polyline> = vec![
        vec![],
        vec![pair(1.0, 1.0)],
        vec![pair(1.0, 2.0), pair(3.0, 4.0)],
        vec![pair(9.0, 9.0)],
    ];
    let blocks = Sketch::new(&polylines).into_blocks(false);
    let expected = bytes_of(&[
        Command::BlockStart,
        Command::BlockNumber(1),
        Command::StartDrawing,
        Command::PenLift,
        Command::Move(0, 0),
        Command::Move(10, 1210),
        Command::PenDown,
        Command::Move(30, 1190),
        Command::PenLift,
        Command::Move(0, 0),
        Command::StopDrawing,
    ]);
    assert_eq!(blocks, vec![expected]);
}

#[test]
fn test_two_polylines_in_order() {
    let polylines: Vec<Polyline> = vec![
        vec![pair(0.0, 123.0), pair(358.0, 0.0), pair(1.0, 122.0)],
        vec![pair(2.0, 2.0), pair(3.0, 3.0)],
    ];
    let blocks = Sketch::new(&polylines).into_blocks(false);
    let expected = bytes_of(&[
        Command::BlockStart,
        Command::BlockNumber(1),
        Command::StartDrawing,
        Command::PenLift,
        Command::Move(0, 0),
        Command::Move(0, 0),
        Command::PenDown,
        Command::Move(3580, 1230),
        Command::Move(10, 10),
        Command::PenLift,
        Command::Move(20, 1210),
        Command::PenDown,
        Command::Move(30, 1200),
        Command::PenLift,
        Command::Move(0, 0),
        Command::StopDrawing,
    ]);
    assert_eq!(blocks, vec![expected]);
}

#[test]
fn test_erase_sweep() {
    let polylines: Vec<Polyline> = vec![];
    let blocks = Sketch::new(&polylines).into_blocks(true);
    let mut commands = vec![
        Command::BlockStart,
        Command::BlockNumber(1),
        Command::StartDrawing,
        Command::PenLift,
        Command::Move(0, 1230),
        Command::EnableEraser,
    ];
    for top in [1230u16, 1030, 830, 630, 430, 230] {
        commands.push(Command::Move(3580, top));
        commands.push(Command::Move(3580, top - 100));
        commands.push(Command::Move(0, top - 100));
        commands.push(Command::Move(0, top - 200));
    }
    commands.push(Command::Move(3580, 30));
    commands.push(Command::Move(3580, 0));
    commands.push(Command::Move(0, 0));
    commands.push(Command::Move(0, 0));
    commands.push(Command::PenLift);
    commands.push(Command::Move(0, 0));
    commands.push(Command::Move(0, 0));
    commands.push(Command::StopDrawing);
    assert_eq!(blocks, vec![bytes_of(&commands)]);
    assert_eq!(blocks[0].len(), 6 + 3 * 36);
}

#[test]
fn test_erase_then_draw() {
    let polylines: Vec<Polyline> = vec![vec![pair(0.0, 0.0), pair(10.0, 0.0)]];
    let erased = Sketch::new(&polylines).into_blocks(true);
    let plain = Sketch::new(&polylines).into_blocks(false);
    assert_eq!(erased.len(), 1);
    assert_eq!(erased[0].len(), 6 + 3 * 40);
    // Both end with the same stroke and the same close.
    let tail = bytes_of(&[
        Command::Move(0, 1230),
        Command::PenDown,
        Command::Move(100, 1230),
        Command::PenLift,
        Command::Move(0, 0),
        Command::StopDrawing,
    ]);
    assert!(erased[0].ends_with(&tail));
    assert!(plain[0].ends_with(&tail));
}

#[test]
fn test_block_sizes_and_numbers() {
    let mut polylines: Vec<Polyline> = vec![];
    for n in 0..40 {
        let mut polyline = vec![];
        for i in 0..(n * 7 % 60) {
            polyline.push(pair(i as f64 * 6.1, n as f64 * 3.3));
        }
        polylines.push(polyline);
    }
    for erase in [false, true] {
        let blocks = Sketch::new(&polylines).into_blocks(erase);
        assert!(blocks.len() > 2);
        for (k, block) in blocks.iter().enumerate() {
            assert!(block.len() >= 6 && block.len() <= 768);
            assert_eq!((block.len() - 6) % 3, 0);
            assert_eq!(block[0..3], Command::BlockStart.to_bytes());
            assert_eq!(block[3..6], Command::BlockNumber((k + 1) as u16).to_bytes());
            if k + 1 < blocks.len() {
                assert_eq!(block.len(), 768);
            }
        }
    }
}

#[test]
fn test_payload_is_the_command_stream() {
    let mut polyline = vec![];
    for i in 0..700 {
        polyline.push(pair((i % 400) as f64, (i % 150) as f64 - 10.0));
    }
    let polylines = vec![polyline.clone(), vec![pair(1.0, 1.0)], polyline];
    let blocks = Sketch::new(&polylines).into_blocks(false);
    let stream = payload(&blocks);
    assert_eq!(stream.len(), 3 * (5 + 702 + 702));
    assert_eq!(stream[0..3], Command::StartDrawing.to_bytes());
    let end = stream.len();
    assert_eq!(stream[end - 3..], Command::StopDrawing.to_bytes());
    assert_eq!(stream[end - 6..end - 3], Command::Move(0, 0).to_bytes());
    assert_eq!(stream[end - 9..end - 6], Command::PenLift.to_bytes());
    // Every move of the stream is on the board.
    for command in stream.chunks(3) {
        if command[0] != 0xfa {
            let x = (command[0] as u16) << 4 | (command[1] as u16) >> 4;
            let y = ((command[1] as u16) & 0x0f) << 8 | command[2] as u16;
            assert!(x <= 3580);
            assert!(y <= 1230);
        }
    }
}

#[test]
fn test_close_without_a_stroke() {
    let polylines: Vec<Polyline> = vec![vec![pair(5.0, 5.0)]];
    let blocks = Sketch::new(&polylines).into_blocks(true);
    let stream = payload(&blocks);
    let tail = bytes_of(&[
        Command::PenLift,
        Command::Move(0, 0),
        Command::Move(0, 0),
        Command::StopDrawing,
    ]);
    assert!(stream.ends_with(&tail));
}

#[test]
fn test_fits() {
    let small: Vec<Polyline> = vec![vec![pair(1.0, 1.0), pair(2.0, 2.0)]];
    assert!(Sketch::new(&small).fits(false));
    assert!(Sketch::new(&small).fits(true));

    // 3999 blocks of 254 commands is the most that can be numbered.
    let most = 3999 * 254;
    let polyline: Polyline = vec![pair(1.0, 1.0); most - 5 - 2];
    let polylines = vec![polyline];
    assert!(Sketch::new(&polylines).fits(false));
    assert!(!Sketch::new(&polylines).fits(true));
    let blocks = Sketch::new(&polylines).into_blocks(false);
    assert_eq!(blocks.len(), 3999);
    assert_eq!(blocks[3998].len(), 768);
    assert_eq!(blocks[3998][3..6], [0xfa, 0x9f, 0x9f]);

    let polyline: Polyline = vec![pair(1.0, 1.0); most - 5 - 1];
    let polylines = vec![polyline];
    assert!(!Sketch::new(&polylines).fits(false));
}
