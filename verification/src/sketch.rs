//! The sketch compiler: from a drawing to the numbered blocks that are sent
//! to the board.

use vstd::prelude::*;
use crate::command::{Command, IBB_HEIGHT, IBB_WIDTH};
use crate::geometry::{device_x, device_y, fix_x, fix_y, views, CoordinatePair, Polyline};

verus! {

/// A framed unit of transmission: a header and a slice of the command stream.
pub type Block = Vec<u8>;

/// The largest number of bytes in a block.
pub const BLOCK_SIZE: usize = 768;

/// The bytes that the two commands of a block's header take.
pub const HEADER_SIZE: usize = 6;

/// The millimetres by which the eraser descends per half lap.
pub const ERASE_STEP: u16 = 10;

/// The bytes of a list of commands, in order.
pub open spec fn encode_all(commands: Seq<Command>) -> Seq<u8>
    decreases commands.len(),
{
    if commands.len() == 0 {
        Seq::empty()
    } else {
        encode_all(commands.drop_last()) + commands.last().encode()
    }
}

/// The move to a point of the drawing, in the board's coordinates.
pub open spec fn move_to(point: CoordinatePair) -> Command {
    Command::Move(device_x(point.x as int) as u16, device_y(point.y as int) as u16)
}

/// The moves to each of the points, in order.
pub open spec fn moves(points: Seq<CoordinatePair>) -> Seq<Command> {
    points.map_values(|point: CoordinatePair| move_to(point))
}

/// The commands that draw one polyline. One of fewer than two points is not
/// drawn at all.
pub open spec fn stroke(polyline: Seq<CoordinatePair>) -> Seq<Command> {
    if polyline.len() < 2 {
        Seq::empty()
    } else {
        seq![move_to(polyline[0]), Command::PenDown] + moves(polyline.skip(1))
            + seq![Command::PenLift]
    }
}

/// The commands that draw the polylines one after the other.
pub open spec fn strokes(polylines: Seq<Seq<CoordinatePair>>) -> Seq<Command>
    decreases polylines.len(),
{
    if polylines.len() == 0 {
        Seq::empty()
    } else {
        strokes(polylines.drop_last()) + stroke(polylines.last())
    }
}

/// The height, in millimetres, that the eraser reaches from `y` in half a lap.
pub open spec fn step_down(y: int) -> int {
    if y > ERASE_STEP {
        y - ERASE_STEP
    } else {
        0
    }
}

/// The laps of the eraser from the height `y`, in millimetres, down to the
/// bottom: to the right edge, down, back to the left edge, down.
pub open spec fn sweep_laps(y: int) -> Seq<Command>
    decreases y,
{
    if y <= 0 {
        Seq::empty()
    } else {
        let y1 = step_down(y);
        let y2 = step_down(y1);
        seq![
            Command::Move(3580, (10 * y) as u16),
            Command::Move(3580, (10 * y1) as u16),
            Command::Move(0, (10 * y1) as u16),
            Command::Move(0, (10 * y2) as u16),
        ] + sweep_laps(y2)
    }
}

/// The commands that erase the whole board and leave the carriage at the
/// origin with the pen up.
pub open spec fn erase_sweep() -> Seq<Command> {
    seq![Command::PenLift, Command::Move(0, 1230), Command::EnableEraser] + sweep_laps(123)
        + seq![Command::PenLift, Command::Move(0, 0)]
}

/// What precedes the strokes of a drawing.
pub open spec fn preamble(erase: bool) -> Seq<Command> {
    seq![Command::StartDrawing] + if erase {
        erase_sweep()
    } else {
        seq![Command::PenLift, Command::Move(0, 0)]
    }
}

/// The whole command list of a drawing.
pub open spec fn sketch_commands(polylines: Seq<Seq<CoordinatePair>>, erase: bool) -> Seq<
    Command,
> {
    preamble(erase) + strokes(polylines) + seq![Command::Move(0, 0), Command::StopDrawing]
}

/// The command stream of a drawing.
pub open spec fn compile(polylines: Seq<Seq<CoordinatePair>>, erase: bool) -> Seq<u8> {
    encode_all(sketch_commands(polylines, erase))
}

/// The number of blocks that a command stream of `stream_len` bytes takes.
pub open spec fn block_count(stream_len: int) -> int {
    (stream_len + (BLOCK_SIZE - HEADER_SIZE) - 1) / (BLOCK_SIZE - HEADER_SIZE)
}

/// The part of the command stream that block `k` carries, counted from 0.
pub open spec fn chunk(stream: Seq<u8>, k: int) -> Seq<u8> {
    let start = k * (BLOCK_SIZE - HEADER_SIZE);
    let end = if start + (BLOCK_SIZE - HEADER_SIZE) < stream.len() {
        start + (BLOCK_SIZE - HEADER_SIZE)
    } else {
        stream.len() as int
    };
    stream.subrange(start, end)
}

/// Block `k` of a command stream, counted from 0: the header with the block
/// number `k + 1`, then the chunk.
pub open spec fn block(stream: Seq<u8>, k: int) -> Seq<u8> {
    Command::BlockStart.encode() + Command::BlockNumber((k + 1) as u16).encode() + chunk(stream, k)
}

/// The blocks of a command stream.
pub open spec fn frame(stream: Seq<u8>) -> Seq<Seq<u8>> {
    Seq::new(block_count(stream.len() as int) as nat, |k: int| block(stream, k))
}

/// The drawing fits in the blocks that can be numbered.
pub open spec fn printable(polylines: Seq<Seq<CoordinatePair>>, erase: bool) -> bool {
    block_count(compile(polylines, erase).len() as int) < 4000
}

/// A command list takes three bytes per command.
pub proof fn lemma_encode_all_len(commands: Seq<Command>)
    ensures
        encode_all(commands).len() == 3 * commands.len(),
    decreases commands.len(),
{
    if commands.len() > 0 {
        lemma_encode_all_len(commands.drop_last());
    }
}

/// The bytes of two command lists in a row are the bytes of the first, then
/// those of the second.
pub proof fn lemma_encode_all_concat(front: Seq<Command>, back: Seq<Command>)
    ensures
        encode_all(front + back) == encode_all(front) + encode_all(back),
    decreases back.len(),
{
    if back.len() > 0 {
        lemma_encode_all_concat(front, back.drop_last());
        assert((front + back).drop_last() =~= front + back.drop_last());
    }
}

/// One more command adds its three bytes at the end.
pub proof fn lemma_encode_all_push(commands: Seq<Command>, command: Command)
    ensures
        encode_all(commands.push(command)) == encode_all(commands) + command.encode(),
{
    assert(commands.push(command).drop_last() =~= commands);
}

/// Command `i` of a list stands at the bytes `3 * i` to `3 * i + 3` of its
/// stream.
pub proof fn lemma_encode_all_command(commands: Seq<Command>, i: int)
    requires
        0 <= i < commands.len(),
    ensures
        3 * i + 3 <= encode_all(commands).len(),
        encode_all(commands).subrange(3 * i, 3 * i + 3) == commands[i].encode(),
    decreases commands.len(),
{
    lemma_encode_all_len(commands.drop_last());
    if i < commands.len() - 1 {
        lemma_encode_all_command(commands.drop_last(), i);
    }
}

/// The strokes of a drawing with one more polyline.
pub proof fn lemma_strokes_push(polylines: Seq<Seq<CoordinatePair>>, polyline: Seq<CoordinatePair>)
    ensures
        strokes(polylines.push(polyline)) == strokes(polylines) + stroke(polyline),
{
    assert(polylines.push(polyline).drop_last() =~= polylines);
}

/// Appending a command's bytes to a buffer that holds `base`, then the bytes
/// of `commands`, gives `base`, then the bytes of the longer list.
proof fn lemma_emit(base: Seq<u8>, commands: Seq<Command>, command: Command)
    ensures
        (base + encode_all(commands)) + command.encode() == base + encode_all(
            commands.push(command),
        ),
{
    lemma_encode_all_push(commands, command);
}

/// A drawing on its way to the board.
pub struct Sketch<'a> {
    buf: Vec<u8>,
    block_size: usize,
    polylines: &'a [Polyline],
}

impl<'a> Sketch<'a> {
    /// The polylines of the sketch.
    pub closed spec fn drawing(&self) -> Seq<Seq<CoordinatePair>> {
        views(self.polylines@)
    }

    /// Nothing has been compiled yet, and the blocks have the board's size.
    pub closed spec fn wf(&self) -> bool {
        &&& self.block_size == BLOCK_SIZE
        &&& self.buf@.len() == 0
    }

    /// A sketch of the polylines, of which nothing is compiled yet.
    pub fn new(polylines: &'a [Polyline]) -> (sketch: Self)
        ensures
            sketch.wf(),
            sketch.drawing() == views(polylines@),
    {
        Sketch { buf: Vec::new(), block_size: 768, polylines: polylines }
    }

    /// Add a command to the internal command buffer.
    fn add_command(&mut self, command: Command)
        requires
            command.encodable(),
        ensures
            final(self).buf@ == old(self).buf@ + command.encode(),
            final(self).block_size == old(self).block_size,
            final(self).polylines == old(self).polylines,
    {
        let bytes: [u8; 3] = command.to_bytes();
        self.buf.extend_from_slice(bytes.as_slice());
    }

    /// Erase the entire board. The commands that start and stop a drawing
    /// are not part of the sweep.
    fn erase_all(&mut self)
        ensures
            final(self).buf@ == old(self).buf@ + encode_all(erase_sweep()),
            final(self).block_size == old(self).block_size,
            final(self).polylines == old(self).polylines,
    {
        let ghost base = self.buf@;
        let ghost mut done: Seq<Command> = Seq::empty();
        self.add_command(Command::PenLift);
        proof {
            lemma_emit(base, done, Command::PenLift);
            done = done.push(Command::PenLift);
        }
        self.add_command(Command::Move(0, IBB_HEIGHT * 10));
        proof {
            lemma_emit(base, done, Command::Move(0, 1230));
            done = done.push(Command::Move(0, 1230));
        }
        self.add_command(Command::EnableEraser);
        proof {
            lemma_emit(base, done, Command::EnableEraser);
            done = done.push(Command::EnableEraser);
        }
        let ghost head = done;
        let ghost mut laps: Seq<Command> = Seq::empty();
        let mut y: u16 = IBB_HEIGHT;
        let y_step: u16 = ERASE_STEP;
        while y > 0
            invariant
                y <= IBB_HEIGHT,
                y_step == ERASE_STEP,
                self.buf@ == base + encode_all(done),
                done == head + laps,
                sweep_laps(123) == laps + sweep_laps(y as int),
                self.block_size == old(self).block_size,
                self.polylines == old(self).polylines,
            decreases y,
        {
            // Move to right and step down
            self.add_command(Command::Move(IBB_WIDTH * 10, y * 10));
            proof {
                lemma_emit(base, done, Command::Move(3580, (10 * y) as u16));
                done = done.push(Command::Move(3580, (10 * y) as u16));
                laps = laps.push(Command::Move(3580, (10 * y) as u16));
            }
            if y > y_step {
                y -= y_step;
            } else {
                y = 0;
            }
            // Move back to left and step down
            self.add_command(Command::Move(IBB_WIDTH * 10, y * 10));
            proof {
                lemma_emit(base, done, Command::Move(3580, (10 * y) as u16));
                done = done.push(Command::Move(3580, (10 * y) as u16));
                laps = laps.push(Command::Move(3580, (10 * y) as u16));
            }
            self.add_command(Command::Move(0, y * 10));
            proof {
                lemma_emit(base, done, Command::Move(0, (10 * y) as u16));
                done = done.push(Command::Move(0, (10 * y) as u16));
                laps = laps.push(Command::Move(0, (10 * y) as u16));
            }
            if y > y_step {
                y -= y_step;
            } else {
                y = 0;
            }
            self.add_command(Command::Move(0, y * 10));
            proof {
                lemma_emit(base, done, Command::Move(0, (10 * y) as u16));
                done = done.push(Command::Move(0, (10 * y) as u16));
                laps = laps.push(Command::Move(0, (10 * y) as u16));
            }
        }
        self.add_command(Command::PenLift);
        proof {
            lemma_emit(base, done, Command::PenLift);
            done = done.push(Command::PenLift);
        }
        self.add_command(Command::Move(0, 0));
        proof {
            lemma_emit(base, done, Command::Move(0, 0));
            done = done.push(Command::Move(0, 0));
            assert(done =~= erase_sweep());
        }
    }
}

impl<'a> Sketch<'a> {
    /// Convert the sketch into one or more byte vectors (blocks), ready to be
    /// sent to the robot via serial.
    pub fn into_blocks(self, erase: bool) -> (blocks: Vec<Block>)
        requires
            self.wf(),
            printable(self.drawing(), erase),
        ensures
            views(blocks@) == frame(compile(self.drawing(), erase)),
    {
        let mut sketch = self;
        let polylines: &[Polyline] = sketch.polylines;
        let ghost drawing = views(polylines@);
        let ghost base: Seq<u8> = Seq::empty();
        let ghost mut done: Seq<Command> = Seq::empty();

        // Start a new drawing
        sketch.add_command(Command::StartDrawing);
        proof {
            lemma_emit(base, done, Command::StartDrawing);
            done = done.push(Command::StartDrawing);
        }

        // First, erase the entire board.
        if erase {
            sketch.erase_all();
            proof {
                lemma_encode_all_concat(done, erase_sweep());
                done = done + erase_sweep();
            }
        } else {
            // After a sweep of the eraser the carriage is at the origin already.
            sketch.add_command(Command::PenLift);
            proof {
                lemma_emit(base, done, Command::PenLift);
                done = done.push(Command::PenLift);
            }
            sketch.add_command(Command::Move(0, 0));
            proof {
                lemma_emit(base, done, Command::Move(0, 0));
                done = done.push(Command::Move(0, 0));
            }
        }

        // Now add the drawing commands to the buffer
        let mut i: usize = 0;
        while i < polylines.len()
            invariant
                i <= polylines.len(),
                drawing == views(polylines@),
                sketch.buf@ == base + encode_all(done),
                done == preamble(erase) + strokes(drawing.take(i as int)),
                sketch.block_size == BLOCK_SIZE,
            decreases polylines.len() - i,
        {
            let polyline: &Polyline = &polylines[i];
            let ghost points = polyline@;
            proof {
                lemma_strokes_push(drawing.take(i as int), points);
                assert(drawing.take(i as int).push(points) =~= drawing.take(i + 1));
            }
            if polyline.len() >= 2 {
                let start: CoordinatePair = polyline[0];
                sketch.add_command(Command::Move(fix_x(start.x), fix_y(start.y)));
                proof {
                    lemma_emit(base, done, move_to(start));
                    done = done.push(move_to(start));
                }
                sketch.add_command(Command::PenDown);
                proof {
                    lemma_emit(base, done, Command::PenDown);
                    done = done.push(Command::PenDown);
                }
                let ghost head = done;
                let mut j: usize = 1;
                while j < polyline.len()
                    invariant
                        1 <= j <= polyline.len(),
                        points == polyline@,
                        sketch.buf@ == base + encode_all(done),
                        done == head + moves(points.subrange(1, j as int)),
                        sketch.block_size == BLOCK_SIZE,
                    decreases polyline.len() - j,
                {
                    let point: CoordinatePair = polyline[j];
                    sketch.add_command(Command::Move(fix_x(point.x), fix_y(point.y)));
                    proof {
                        lemma_emit(base, done, move_to(point));
                        done = done.push(move_to(point));
                    }
                    j += 1;
                }
                sketch.add_command(Command::PenLift);
                proof {
                    lemma_emit(base, done, Command::PenLift);
                    done = done.push(Command::PenLift);
                }
            }
            i += 1;
        }
        assert(drawing.take(polylines.len() as int) =~= drawing);

        // Move back to start, done
        sketch.add_command(Command::Move(0, 0));
        proof {
            lemma_emit(base, done, Command::Move(0, 0));
            done = done.push(Command::Move(0, 0));
        }
        sketch.add_command(Command::StopDrawing);
        proof {
            lemma_emit(base, done, Command::StopDrawing);
            done = done.push(Command::StopDrawing);
            assert(done =~= sketch_commands(drawing, erase));
        }

        // Then, divide up the buffer into blocks
        let ghost stream = sketch.buf@;
        let chunk_size: usize = sketch.block_size - HEADER_SIZE;
        let len: usize = sketch.buf.len();
        let count: usize = (len + (chunk_size - 1)) / chunk_size;
        let mut blocks: Vec<Block> = Vec::new();
        let mut k: usize = 0;
        while k < count
            invariant
                k <= count,
                count == block_count(stream.len() as int),
                count < 4000,
                chunk_size == BLOCK_SIZE - HEADER_SIZE,
                len == stream.len(),
                stream == sketch.buf@,
                blocks@.len() == k,
                forall|n: int| 0 <= n < k ==> (#[trigger] blocks@[n])@ == block(stream, n),
            decreases count - k,
        {
            assert(k * 762 < len);
            let start: usize = k * chunk_size;
            let end: usize = if start + chunk_size < len {
                start + chunk_size
            } else {
                len
            };
            let mut block: Block = Vec::new();
            block.extend_from_slice(Command::BlockStart.to_bytes().as_slice());
            block.extend_from_slice(Command::BlockNumber((k + 1) as u16).to_bytes().as_slice());
            block.extend_from_slice(vstd::slice::slice_subrange(sketch.buf.as_slice(), start, end));
            blocks.push(block);
            k += 1;
        }
        blocks
    }
}

/// The most commands that the blocks which can be numbered carry: 3999
/// blocks of 254 commands.
pub const MAX_COMMANDS: usize = 1_015_746;

/// The sweep of the eraser takes 33 commands.
proof fn lemma_erase_sweep_len()
    ensures
        erase_sweep().len() == 33,
{
    reveal_with_fuel(sweep_laps, 8);
}

/// The strokes of the first polylines of a drawing are no more than those of
/// the whole drawing.
proof fn lemma_strokes_len(polylines: Seq<Seq<CoordinatePair>>, i: int)
    requires
        0 <= i <= polylines.len(),
    ensures
        strokes(polylines.take(i)).len() <= strokes(polylines).len(),
    decreases polylines.len() - i,
{
    if i == polylines.len() {
        assert(polylines.take(i) =~= polylines);
    } else {
        lemma_strokes_len(polylines, i + 1);
        lemma_strokes_push(polylines.take(i), polylines[i]);
        assert(polylines.take(i).push(polylines[i]) =~= polylines.take(i + 1));
    }
}

/// A drawing is printable when it has no more commands than the blocks carry.
pub proof fn lemma_printable(polylines: Seq<Seq<CoordinatePair>>, erase: bool)
    ensures
        printable(polylines, erase) <==> sketch_commands(polylines, erase).len() <= MAX_COMMANDS,
        sketch_commands(polylines, erase).len() == strokes(polylines).len() + if erase {
            36int
        } else {
            5int
        },
{
    lemma_encode_all_len(sketch_commands(polylines, erase));
    lemma_erase_sweep_len();
}

impl<'a> Sketch<'a> {
    /// Whether the drawing fits in the blocks that can be numbered.
    pub fn fits(&self, erase: bool) -> (ok: bool)
        ensures
            ok == printable(self.drawing(), erase),
    {
        let polylines: &[Polyline] = self.polylines;
        let ghost drawing = views(polylines@);
        let mut count: usize = if erase {
            36
        } else {
            5
        };
        let mut i: usize = 0;
        while i < polylines.len()
            invariant
                i <= polylines.len(),
                drawing == views(polylines@),
                drawing == self.drawing(),
                count <= MAX_COMMANDS,
                count == strokes(drawing.take(i as int)).len() + if erase {
                    36int
                } else {
                    5int
                },
            decreases polylines.len() - i,
        {
            let points: usize = polylines[i].len();
            proof {
                lemma_strokes_push(drawing.take(i as int), drawing[i as int]);
                assert(drawing.take(i as int).push(drawing[i as int]) =~= drawing.take(i + 1));
            }
            if points >= 2 {
                if points > MAX_COMMANDS - count || points + 2 > MAX_COMMANDS - count {
                    proof {
                        lemma_strokes_len(drawing, i + 1);
                        lemma_printable(drawing, erase);
                    }
                    return false;
                }
                count += points + 2;
            }
            i += 1;
        }
        proof {
            assert(drawing.take(polylines.len() as int) =~= drawing);
            lemma_printable(drawing, erase);
        }
        true
    }
}

} // verus!
