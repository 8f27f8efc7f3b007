//! The command codec: every command of the board is three bytes on the wire.

use vstd::prelude::*;

verus! {

/// Width of the board in millimetres.
pub const IBB_WIDTH: u16 = 358;

/// Height of the board in millimetres.
pub const IBB_HEIGHT: u16 = 123;

/// Block numbers are below this bound.
pub const BLOCK_NUMBER_LIMIT: u16 = 4000;

/// The longest wait, in seconds, that the board accepts.
pub const MAX_WAIT_SECONDS: u8 = 30;

/// A command understood by the board.
#[derive(Debug, Clone, Copy, PartialEq, Eq, Structural)]
pub enum Command {
    /// Start of block
    BlockStart,
    /// This is block number n
    BlockNumber(u16),
    /// Start drawing
    StartDrawing,
    /// Stop drawing
    StopDrawing,
    /// Lift up the pen with the servo
    PenLift,
    /// Lower down the pen with the servo. This will disable the eraser.
    PenDown,
    /// Enable the eraser. This will also lift up the pen.
    EnableEraser,
    /// Move to the specified coordinates, in tenths of a millimetre
    Move(u16, u16),
    /// Wait n seconds
    Wait(u8),
}

impl Command {
    /// The payload is within the range that the board accepts.
    pub open spec fn encodable(self) -> bool {
        match self {
            Command::BlockNumber(n) => n < BLOCK_NUMBER_LIMIT,
            Command::Wait(seconds) => seconds <= MAX_WAIT_SECONDS,
            _ => true,
        }
    }

    /// The three bytes that stand for the command on the wire.
    pub open spec fn encode(self) -> Seq<u8> {
        match self {
            Command::BlockStart => seq![0xfau8, 0x9fu8, 0xa1u8],
            Command::BlockNumber(n) => seq![0xfau8, (0x90u16 | (n >> 8)) as u8, (n & 0xff) as u8],
            Command::StartDrawing => seq![0xfau8, 0x1fu8, 0xa1u8],
            Command::StopDrawing => seq![0xfau8, 0x20u8, 0x00u8],
            Command::PenLift => seq![0xfau8, 0x30u8, 0x00u8],
            Command::PenDown => seq![0xfau8, 0x40u8, 0x00u8],
            Command::EnableEraser => seq![0xfau8, 0x50u8, 0x00u8],
            Command::Wait(seconds) => seq![0xfau8, 0x60u8, seconds],
            Command::Move(x, y) => seq![
                ((x >> 4) & 0xff) as u8,
                (((x << 4) | (y >> 8)) & 0xff) as u8,
                (y & 0xff) as u8,
            ],
        }
    }

    /// Serialises the command.
    pub fn to_bytes(&self) -> (bytes: [u8; 3])
        requires
            self.encodable(),
        ensures
            bytes@ == self.encode(),
    {
        match *self {
            Command::BlockStart => [0xfa, 0x9f, 0xa1],
            Command::BlockNumber(num) => [0xfa, (0x90 | (num >> 8)) as u8, (num & 0xff) as u8],
            Command::StartDrawing => [0xfa, 0x1f, 0xa1],
            Command::StopDrawing => [0xfa, 0x20, 0x00],
            Command::PenLift => [0xfa, 0x30, 0x00],
            Command::PenDown => [0xfa, 0x40, 0x00],
            Command::Move(x, y) => [
                ((x >> 4) & 0xff) as u8,
                (((x << 4) | (y >> 8)) & 0xff) as u8,
                (y & 0xff) as u8,
            ],
            Command::Wait(seconds) => [0xfa, 0x60, seconds],
            Command::EnableEraser => [0xfa, 0x50, 0x00],
        }
    }
}

/// The two 12-bit fields that three bytes hold as a move: x in the upper
/// half of the 24 bits, y in the lower half.
pub open spec fn decode_move(bytes: Seq<u8>) -> (int, int) {
    (bytes[0] * 16 + bytes[1] / 16, (bytes[1] % 16) * 256 + bytes[2])
}

/// The command that three bytes stand for on the wire, if any. Bytes that
/// start with `0xfa` are a control command; all others are a move.
pub open spec fn decode(bytes: Seq<u8>) -> Option<Command> {
    if bytes.len() != 3 {
        None
    } else if bytes[0] != 0xfa {
        let (x, y) = decode_move(bytes);
        Some(Command::Move(x as u16, y as u16))
    } else if bytes[1] == 0x9f && bytes[2] == 0xa1 {
        Some(Command::BlockStart)
    } else if bytes[1] == 0x1f && bytes[2] == 0xa1 {
        Some(Command::StartDrawing)
    } else if bytes[1] == 0x20 && bytes[2] == 0x00 {
        Some(Command::StopDrawing)
    } else if bytes[1] == 0x30 && bytes[2] == 0x00 {
        Some(Command::PenLift)
    } else if bytes[1] == 0x40 && bytes[2] == 0x00 {
        Some(Command::PenDown)
    } else if bytes[1] == 0x50 && bytes[2] == 0x00 {
        Some(Command::EnableEraser)
    } else if bytes[1] == 0x60 && bytes[2] <= MAX_WAIT_SECONDS {
        Some(Command::Wait(bytes[2]))
    } else if 0x90 <= bytes[1] <= 0x9f && (bytes[1] - 0x90) * 256 + bytes[2] < BLOCK_NUMBER_LIMIT {
        Some(Command::BlockNumber(((bytes[1] - 0x90) * 256 + bytes[2]) as u16))
    } else {
        None
    }
}

impl Command {
    /// The command is one that the board accepts: its payload is in range,
    /// and a move stays on the board.
    pub open spec fn on_board(self) -> bool {
        match self {
            Command::Move(x, y) => x <= 10 * IBB_WIDTH && y <= 10 * IBB_HEIGHT,
            _ => self.encodable(),
        }
    }
}

/// Every command is encoded in exactly three bytes.
pub proof fn lemma_encode_len(command: Command)
    ensures
        command.encode().len() == 3,
{
}

/// A move packs its coordinates as two 12-bit fields, and does not start
/// with the byte that marks a control command while x is below 4000.
pub proof fn lemma_move_encoding(x: u16, y: u16)
    requires
        x < 4096,
        y < 4096,
    ensures
        decode_move(Command::Move(x, y).encode()) == (x as int, y as int),
        x < 4000 ==> Command::Move(x, y).encode()[0] != 0xfa,
{
    let b0: u8 = ((x >> 4) & 0xff) as u8;
    let b1: u8 = (((x << 4) | (y >> 8)) & 0xff) as u8;
    let b2: u8 = (y & 0xff) as u8;
    assert(b0 as u16 == x / 16 && b1 as u16 / 16 == x % 16 && b1 as u16 % 16 == y / 256 && b2 as u16
        == y % 256) by (bit_vector)
        requires
            x < 4096,
            y < 4096,
            b0 == ((x >> 4) & 0xff) as u8,
            b1 == (((x << 4) | (y >> 8)) & 0xff) as u8,
            b2 == (y & 0xff) as u8,
    ;
}

/// A block number is encoded as the marker byte, then the number in twelve
/// bits under the nibble `9`.
pub proof fn lemma_block_number_encoding(n: u16)
    requires
        n < BLOCK_NUMBER_LIMIT,
    ensures
        Command::BlockNumber(n).encode() == seq![0xfau8, (0x90 + n / 256) as u8, (n % 256) as u8],
{
    let b1: u8 = (0x90u16 | (n >> 8)) as u8;
    let b2: u8 = (n & 0xff) as u8;
    assert(b1 as u16 == 0x90 + n / 256 && b2 as u16 == n % 256) by (bit_vector)
        requires
            n < 4000,
            b1 == (0x90u16 | (n >> 8)) as u8,
            b2 == (n & 0xff) as u8,
    ;
}

/// Decoding undoes encoding: the three bytes of a command that the board
/// accepts stand for that command and no other.
pub proof fn lemma_decode_encode(command: Command)
    requires
        command.on_board(),
    ensures
        decode(command.encode()) == Some(command),
{
    match command {
        Command::Move(x, y) => {
            lemma_move_encoding(x, y);
        },
        Command::BlockNumber(n) => {
            lemma_block_number_encoding(n);
        },
        _ => {},
    }
}

} // verus!
