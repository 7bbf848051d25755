//! The stored high score: one signed 32-bit integer, written as four bytes
//! with the least significant byte first. This module turns a score into the
//! bytes of the file and the bytes of a file back into a score; reading and
//! writing the file itself is left to the caller.

use byteorder::{LittleEndian, ReadBytesExt, WriteBytesExt};
use vstd::prelude::*;

verus! {

/// Number of bytes that a stored score takes.
pub const SCORE_FILE_LEN: usize = 4;

/// The number between 0 and 2^32 that has the bit pattern of `n` in two's
/// complement.
pub open spec fn bit_pattern(n: i32) -> int {
    if n < 0 {
        n + 0x1_0000_0000
    } else {
        n as int
    }
}

/// The four bytes of `n`, least significant first.
pub open spec fn le_bytes(n: i32) -> Seq<u8> {
    let u = bit_pattern(n);
    seq![
        (u % 256) as u8,
        ((u / 256) % 256) as u8,
        ((u / 65536) % 256) as u8,
        ((u / 16777216) % 256) as u8,
    ]
}

/// The integer whose four bytes, least significant first, open `bytes`.
pub open spec fn le_value(bytes: Seq<u8>) -> i32
    recommends
        bytes.len() >= 4,
{
    let u = bytes[0] + 256 * bytes[1] + 65536 * bytes[2] + 16777216 * bytes[3];
    if u >= 0x8000_0000 {
        (u - 0x1_0000_0000) as i32
    } else {
        u as i32
    }
}

/// Why the bytes of a score file give no score.
#[derive(Clone, Copy, Debug, PartialEq, Eq, Structural)]
pub enum ScoreFileError {
    /// The file holds fewer than four bytes.
    Truncated,
}

/// Writes `n` into a fresh buffer with `byteorder::WriteBytesExt::write_i32`
/// in `LittleEndian` order. The writer is a `Vec<u8>`, which takes every
/// write, so the buffer then holds exactly the four bytes of `n`, least
/// significant first.
#[verifier::external_body]
fn write_i32_le(n: i32) -> (bytes: Vec<u8>)
    ensures
        bytes@ == le_bytes(n),
{
    let mut buffer: Vec<u8> = Vec::new();
    let _ = buffer.write_i32::<LittleEndian>(n);
    buffer
}

/// Reads one integer from the front of `bytes` with
/// `byteorder::ReadBytesExt::read_i32` in `LittleEndian` order. The reader is
/// the byte slice itself: the read fails exactly when the slice has fewer
/// than the four bytes asked for, and otherwise yields the integer that its
/// first four bytes spell, least significant first.
#[verifier::external_body]
fn read_i32_le(bytes: &[u8]) -> (r: Option<i32>)
    ensures
        r is Some <==> bytes@.len() >= 4,
        r is Some ==> r->Some_0 == le_value(bytes@),
{
    let mut reader: &[u8] = bytes;
    match reader.read_i32::<LittleEndian>() {
        Ok(n) => Some(n),
        Err(_) => None,
    }
}

/// The contents of the score file that stores `score`.
pub fn save_score(score: i32) -> (bytes: Vec<u8>)
    ensures
        bytes@ == le_bytes(score),
        bytes@.len() == SCORE_FILE_LEN,
{
    write_i32_le(score)
}

/// The score that a file with these contents stores. Bytes after the fourth
/// are not looked at.
pub fn read_score(bytes: &[u8]) -> (r: Result<i32, ScoreFileError>)
    ensures
        bytes@.len() >= SCORE_FILE_LEN ==> r == Ok::<i32, ScoreFileError>(le_value(bytes@)),
        bytes@.len() < SCORE_FILE_LEN ==> r == Err::<i32, ScoreFileError>(ScoreFileError::Truncated),
{
    match read_i32_le(bytes) {
        Some(n) => Ok(n),
        None => Err(ScoreFileError::Truncated),
    }
}

/// The high score that a session starts with, given the contents of the
/// score file, or `None` if the file could not be read.
pub open spec fn stored_high_score(contents: Option<Seq<u8>>) -> i32 {
    match contents {
        Some(bytes) => if bytes.len() >= SCORE_FILE_LEN {
            le_value(bytes)
        } else {
            0
        },
        None => 0,
    }
}

/// The high score to start a session with. A file that is missing or too
/// short is no error: the high score then starts at zero.
pub fn load_high_score(contents: Option<&[u8]>) -> (score: i32)
    ensures
        score == stored_high_score(
            match contents {
                Some(bytes) => Some(bytes@),
                None => None,
            },
        ),
{
    match contents {
        Some(bytes) => match read_score(bytes) {
            Ok(n) => n,
            Err(_) => 0,
        },
        None => 0,
    }
}

/// A score that is written and read back is the same score: its four bytes
/// spell it again, whatever follows them.
pub proof fn lemma_score_round_trip(n: i32, rest: Seq<u8>)
    ensures
        le_bytes(n).len() == SCORE_FILE_LEN,
        le_value(le_bytes(n) + rest) == n,
        stored_high_score(Some(le_bytes(n) + rest)) == n,
{
    let u = bit_pattern(n);
    let b = le_bytes(n) + rest;
    assert(b[0] == (u % 256) as u8);
    assert(b[1] == ((u / 256) % 256) as u8);
    assert(b[2] == ((u / 65536) % 256) as u8);
    assert(b[3] == ((u / 16777216) % 256) as u8);
    assert(0 <= u < 0x1_0000_0000);
    assert(u == u % 256 + 256 * ((u / 256) % 256) + 65536 * ((u / 65536) % 256) + 16777216 * ((u
        / 16777216) % 256));
}

} // verus!
