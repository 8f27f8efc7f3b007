//! What holds of every compiled drawing: the size and the header of each
//! block, the command stream that the blocks carry, and the moves in it.

use vstd::prelude::*;
use crate::command::{decode, decode_move, lemma_decode_encode, Command};
use crate::geometry::CoordinatePair;
use crate::sketch::{
    block, block_count, chunk, compile, encode_all, erase_sweep, frame, lemma_encode_all_command,
    lemma_encode_all_len, printable, sketch_commands, strokes, sweep_laps,
};

verus! {

/// The command bytes that a list of blocks carries: each block without its
/// header of six bytes, in order.
pub open spec fn payload(blocks: Seq<Seq<u8>>) -> Seq<u8>
    decreases blocks.len(),
{
    if blocks.len() == 0 {
        Seq::empty()
    } else {
        payload(blocks.drop_last()) + blocks.last().skip(6)
    }
}

/// At least one polyline has the two points that a stroke takes.
pub open spec fn drawable(polylines: Seq<Seq<CoordinatePair>>) -> bool {
    exists|i: int| 0 <= i < polylines.len() && (#[trigger] polylines[i]).len() >= 2
}

/// A stream of whole commands is cut into blocks of nine to 768 bytes, each
/// a header of six bytes and a whole number of commands; all but the last
/// are full.
pub proof fn lemma_block_sizes(stream: Seq<u8>, k: int)
    requires
        stream.len() % 3 == 0,
        0 <= k < frame(stream).len(),
    ensures
        6 < frame(stream)[k].len() <= 768,
        (frame(stream)[k].len() - 6) % 3 == 0,
        k + 1 < frame(stream).len() ==> frame(stream)[k].len() == 768,
        frame(stream).len() == block_count(stream.len() as int),
{
}

/// Every block of a compiled drawing is at least six and at most 768 bytes
/// long, and what follows its header is a whole number of commands.
pub proof fn lemma_compiled_block_sizes(
    polylines: Seq<Seq<CoordinatePair>>,
    erase: bool,
    k: int,
)
    requires
        0 <= k < frame(compile(polylines, erase)).len(),
    ensures
        6 <= frame(compile(polylines, erase))[k].len() <= 768,
        (frame(compile(polylines, erase))[k].len() - 6) % 3 == 0,
{
    lemma_encode_all_len(sketch_commands(polylines, erase));
}

/// A compiled drawing takes at least one block.
pub proof fn lemma_compiled_not_empty(polylines: Seq<Seq<CoordinatePair>>, erase: bool)
    ensures
        frame(compile(polylines, erase)).len() >= 1,
{
}

/// Block `k` of a stream, counted from 0, starts with the block marker, and
/// its bytes 3 to 6 are the block number `k + 1`.
pub proof fn lemma_block_header(stream: Seq<u8>, k: int)
    requires
        0 <= k < frame(stream).len(),
        k + 1 < 4000,
    ensures
        frame(stream)[k].subrange(0, 3) == Command::BlockStart.encode(),
        frame(stream)[k].subrange(3, 6) == Command::BlockNumber((k + 1) as u16).encode(),
        decode(frame(stream)[k].subrange(3, 6)) == Some(Command::BlockNumber((k + 1) as u16)),
{
    lemma_decode_encode(Command::BlockNumber((k + 1) as u16));
}

/// Block `k` of a compiled drawing that fits in the blocks that can be
/// numbered, counted from 0, has the block number `k + 1` at its bytes 3 to
/// 6, after the block marker.
pub proof fn lemma_compiled_block_number(
    polylines: Seq<Seq<CoordinatePair>>,
    erase: bool,
    k: int,
)
    requires
        printable(polylines, erase),
        0 <= k < frame(compile(polylines, erase)).len(),
    ensures
        frame(compile(polylines, erase))[k].subrange(0, 3) == Command::BlockStart.encode(),
        decode(frame(compile(polylines, erase))[k].subrange(3, 6)) == Some(
            Command::BlockNumber((k + 1) as u16),
        ),
        1 <= k + 1 < 4000,
{
    lemma_block_header(compile(polylines, erase), k);
}

/// The first `n` blocks of a stream carry its first bytes: `n` full chunks,
/// or the whole stream.
proof fn lemma_payload_prefix(stream: Seq<u8>, n: int)
    requires
        0 <= n <= frame(stream).len(),
    ensures
        payload(frame(stream).take(n)) == stream.take(
            if 762 * n < stream.len() {
                762 * n
            } else {
                stream.len() as int
            },
        ),
    decreases n,
{
    if n == 0 {
        assert(payload(frame(stream).take(0)) =~= stream.take(0));
    } else {
        lemma_payload_prefix(stream, n - 1);
        assert(frame(stream).take(n).drop_last() =~= frame(stream).take(n - 1));
        assert(frame(stream).take(n).last() == block(stream, n - 1));
        assert(block(stream, n - 1).skip(6) =~= chunk(stream, n - 1));
        let end = if 762 * n < stream.len() {
            762 * n
        } else {
            stream.len() as int
        };
        assert(stream.take(762 * (n - 1)) + chunk(stream, n - 1) =~= stream.take(end));
    }
}

/// The blocks of a stream, without their headers, are the stream again.
pub proof fn lemma_payload_of_frame(stream: Seq<u8>)
    ensures
        payload(frame(stream)) == stream,
{
    let n = frame(stream).len() as int;
    lemma_payload_prefix(stream, n);
    assert(frame(stream).take(n) =~= frame(stream));
}

/// The strokes of a drawing in which nothing can be drawn are empty; those
/// of any other end with the pen lifted.
pub proof fn lemma_strokes_end(polylines: Seq<Seq<CoordinatePair>>)
    ensures
        !drawable(polylines) ==> strokes(polylines) == Seq::<Command>::empty(),
        drawable(polylines) ==> strokes(polylines).len() > 0 && strokes(polylines).last()
            == Command::PenLift,
    decreases polylines.len(),
{
    if polylines.len() > 0 {
        let front = polylines.drop_last();
        lemma_strokes_end(front);
        if polylines.last().len() >= 2 {
        } else {
            if drawable(polylines) {
                let i = choose|i: int| 0 <= i < polylines.len() && (#[trigger] polylines[i]).len()
                    >= 2;
                assert(front[i].len() >= 2);
            }
            if drawable(front) {
                let i = choose|i: int| 0 <= i < front.len() && (#[trigger] front[i]).len() >= 2;
            }
        }
    }
}

/// The command list of a drawing starts a drawing, and ends by moving to the
/// origin and stopping. Where a polyline was drawn, the pen is lifted just
/// before that last move.
pub proof fn lemma_sketch_ends(polylines: Seq<Seq<CoordinatePair>>, erase: bool)
    ensures
        sketch_commands(polylines, erase).len() >= 5,
        sketch_commands(polylines, erase).first() == Command::StartDrawing,
        sketch_commands(polylines, erase).last() == Command::StopDrawing,
        sketch_commands(polylines, erase)[sketch_commands(polylines, erase).len() - 2]
            == Command::Move(0, 0),
        drawable(polylines) ==> sketch_commands(polylines, erase)[sketch_commands(
            polylines,
            erase,
        ).len() - 3] == Command::PenLift,
        !drawable(polylines) ==> sketch_commands(polylines, erase)[sketch_commands(
            polylines,
            erase,
        ).len() - 3] == Command::Move(0, 0) && sketch_commands(polylines, erase)[sketch_commands(
            polylines,
            erase,
        ).len() - 4] == Command::PenLift,
{
    lemma_strokes_end(polylines);
}

/// Every command of the list is one that the board accepts.
pub open spec fn all_on_board(commands: Seq<Command>) -> bool {
    forall|i: int| 0 <= i < commands.len() ==> (#[trigger] commands[i]).on_board()
}

proof fn lemma_sweep_on_board(y: int)
    requires
        0 <= y <= 123,
    ensures
        all_on_board(sweep_laps(y)),
    decreases y,
{
    if y > 0 {
        let y1 = if y > 10 {
            y - 10
        } else {
            0
        };
        let y2 = if y1 > 10 {
            y1 - 10
        } else {
            0
        };
        lemma_sweep_on_board(y2);
    }
}

proof fn lemma_strokes_on_board(polylines: Seq<Seq<CoordinatePair>>)
    ensures
        all_on_board(strokes(polylines)),
    decreases polylines.len(),
{
    if polylines.len() > 0 {
        lemma_strokes_on_board(polylines.drop_last());
    }
}

/// Every command of a drawing is one that the board accepts: no move leaves
/// the board, whatever the points of the drawing are.
pub proof fn lemma_sketch_on_board(polylines: Seq<Seq<CoordinatePair>>, erase: bool)
    ensures
        all_on_board(sketch_commands(polylines, erase)),
{
    lemma_sweep_on_board(123);
    lemma_strokes_on_board(polylines);
}

/// Command `i` of a drawing stands at the bytes `3 * i` to `3 * i + 3` of
/// the compiled stream and is what they decode to. Bytes there that are a
/// move decode to a point of the board: x from 0 to 3580, y from 0 to 1230.
pub proof fn lemma_compiled_command(polylines: Seq<Seq<CoordinatePair>>, erase: bool, i: int)
    requires
        0 <= i < sketch_commands(polylines, erase).len(),
    ensures
        3 * i + 3 <= compile(polylines, erase).len(),
        decode(compile(polylines, erase).subrange(3 * i, 3 * i + 3)) == Some(
            sketch_commands(polylines, erase)[i],
        ),
        compile(polylines, erase)[3 * i] != 0xfa ==> {
            let (x, y) = decode_move(compile(polylines, erase).subrange(3 * i, 3 * i + 3));
            &&& sketch_commands(polylines, erase)[i] == Command::Move(x as u16, y as u16)
            &&& 0 <= x <= 3580
            &&& 0 <= y <= 1230
        },
{
    let commands = sketch_commands(polylines, erase);
    lemma_sketch_on_board(polylines, erase);
    lemma_encode_all_command(commands, i);
    lemma_decode_encode(commands[i]);
}

/// The bytes `6 + n` to `6 + m` of block `k` of a stream are the bytes
/// `762 * k + n` to `762 * k + m` of the stream.
proof fn lemma_block_bytes(stream: Seq<u8>, k: int, n: int, m: int)
    requires
        0 <= k < frame(stream).len(),
        0 <= n <= m,
        6 + m <= frame(stream)[k].len(),
    ensures
        762 * k + m <= stream.len(),
        frame(stream)[k].subrange(6 + n, 6 + m) == stream.subrange(762 * k + n, 762 * k + m),
{
    assert(frame(stream)[k] == block(stream, k));
    assert(block(stream, k).skip(6) =~= chunk(stream, k));
    assert(frame(stream)[k].subrange(6 + n, 6 + m) =~= chunk(stream, k).subrange(n, m));
    assert(chunk(stream, k).subrange(n, m) =~= stream.subrange(762 * k + n, 762 * k + m));
}

/// Behind the header of a block of a compiled drawing stand whole commands:
/// the bytes `6 + 3 * j` to `9 + 3 * j` of block `k` are command
/// `254 * k + j` of the drawing, and a command that the board accepts.
pub proof fn lemma_block_command(polylines: Seq<Seq<CoordinatePair>>, erase: bool, k: int, j: int)
    requires
        0 <= k < frame(compile(polylines, erase)).len(),
        0 <= j,
        9 + 3 * j <= frame(compile(polylines, erase))[k].len(),
    ensures
        254 * k + j < sketch_commands(polylines, erase).len(),
        decode(frame(compile(polylines, erase))[k].subrange(6 + 3 * j, 9 + 3 * j)) == Some(
            sketch_commands(polylines, erase)[254 * k + j],
        ),
        sketch_commands(polylines, erase)[254 * k + j].on_board(),
{
    let commands = sketch_commands(polylines, erase);
    let stream = encode_all(commands);
    let i = 254 * k + j;
    lemma_encode_all_len(commands);
    lemma_block_bytes(stream, k, 3 * j, 3 * j + 3);
    lemma_encode_all_command(commands, i);
    lemma_sketch_on_board(polylines, erase);
    assert(commands[i].on_board());
    lemma_decode_encode(commands[i]);
}

/// The blocks of a compiled drawing carry, after their headers, a command
/// stream that starts a drawing, and ends by moving to the origin and
/// stopping.
pub proof fn lemma_compiled_stream_ends(polylines: Seq<Seq<CoordinatePair>>, erase: bool)
    ensures
        payload(frame(compile(polylines, erase))) == compile(polylines, erase),
        compile(polylines, erase).len() >= 15,
        compile(polylines, erase).take(3) == Command::StartDrawing.encode(),
        compile(polylines, erase).skip(compile(polylines, erase).len() - 6) == Command::Move(
            0,
            0,
        ).encode() + Command::StopDrawing.encode(),
{
    let commands = sketch_commands(polylines, erase);
    let stream = compile(polylines, erase);
    lemma_payload_of_frame(stream);
    lemma_encode_all_len(commands);
    lemma_encode_all_command(commands, 0);
    lemma_encode_all_command(commands, commands.len() - 2);
}

/// Where a drawing has a polyline of two points or more, the pen is lifted
/// just before the last move to the origin: the stream ends with the bytes
/// of lifting the pen, moving to the origin and stopping.
pub proof fn lemma_compiled_stream_tail(polylines: Seq<Seq<CoordinatePair>>, erase: bool)
    requires
        drawable(polylines),
    ensures
        compile(polylines, erase).len() >= 9,
        compile(polylines, erase).skip(compile(polylines, erase).len() - 9)
            == Command::PenLift.encode() + Command::Move(0, 0).encode()
            + Command::StopDrawing.encode(),
{
    let commands = sketch_commands(polylines, erase);
    let stream = compile(polylines, erase);
    lemma_sketch_ends(polylines, erase);
    lemma_encode_all_len(commands);
    lemma_encode_all_command(commands, commands.len() - 3);
    lemma_encode_all_command(commands, commands.len() - 2);
}

/// Command `k` of the seven laps of the eraser, counted from 0. Lap `i`
/// starts 20 mm below the one before it, at 123 mm: it goes to the right
/// edge, 10 mm down, back to the left edge, and 10 mm down again, and
/// never below the bottom.
pub open spec fn lap_command(k: int) -> Command {
    let top = 123 - 20 * (k / 4);
    let middle = if top > 10 {
        top - 10
    } else {
        0
    };
    let bottom = if middle > 10 {
        middle - 10
    } else {
        0
    };
    if k % 4 == 0 {
        Command::Move(3580, (10 * top) as u16)
    } else if k % 4 == 1 {
        Command::Move(3580, (10 * middle) as u16)
    } else if k % 4 == 2 {
        Command::Move(0, (10 * middle) as u16)
    } else {
        Command::Move(0, (10 * bottom) as u16)
    }
}

/// The sweep of the eraser is 33 commands: the pen is lifted, the carriage
/// goes to the top left corner, the eraser is engaged, seven laps take it
/// down to the bottom left corner, and the pen is lifted again there.
pub proof fn lemma_erase_sweep(k: int)
    requires
        0 <= k < 28,
    ensures
        erase_sweep().len() == 33,
        erase_sweep()[0] == Command::PenLift,
        erase_sweep()[1] == Command::Move(0, 1230),
        erase_sweep()[2] == Command::EnableEraser,
        erase_sweep()[3 + k] == lap_command(k),
        erase_sweep()[30] == Command::Move(0, 0),
        erase_sweep()[31] == Command::PenLift,
        erase_sweep()[32] == Command::Move(0, 0),
{
    reveal_with_fuel(sweep_laps, 8);
}

} // verus!
