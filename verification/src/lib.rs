//! Driver core for a whiteboard drawing robot.
//!
//! A drawing is a list of polylines. The [`sketch`] compiler turns it into
//! the three-byte commands of the board ([`command`]), with every point
//! flipped and pinned to the board ([`geometry`]), and frames the command
//! stream into numbered blocks of at most 768 bytes. The [`driver`] keeps the
//! blocks that wait ([`queue`]), takes print tasks ([`task`]), rotates over the
//! drawings of a repeating task, and reads the lines of the board
//! ([`protocol`]) to decide when the next block may go. What holds of every
//! compiled drawing is proved in [`laws`].
//!
//! The library decides and computes; it neither waits nor reads nor writes.
//! The loop around it hands it what arrived and does what it answers.
//! [`config`], [`files`] and [`scaling`] hold what the server around the
//! driver computes.

pub mod command;
pub mod geometry;
pub mod sketch;
pub mod task;
pub mod protocol;
pub mod queue;
pub mod driver;
pub mod laws;
pub mod config;
pub mod files;
pub mod scaling;
