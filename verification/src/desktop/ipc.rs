//! The local connection: frames with their length in front, the name of the
//! endpoint and the match of reply and request.

use super::protocol::{Reply, Request, MAX_FRAME, VERSION};
use crate::fs::probes::{lowercase_of, to_lowercase};
use crate::peer::primitives::{hex_of, hex_text, sha256, sha256_of};
use crate::text::{joined, same_text};
use vstd::prelude::*;
use vstd::slice::slice_subrange;
use vstd::utf8::encode_utf8;

verus! {

/// What is wrong with a frame or a reply.
#[derive(Clone, Copy, PartialEq, Eq, Structural, Debug)]
pub enum FrameError {
    /// A frame is empty or too large.
    InvalidLength,
    /// More bytes are needed.
    Truncated,
    /// A reply belongs to another request or protocol.
    ResponseMismatch,
    /// A request is too large.
    RequestTooLarge,
}

/// The length that a frame may have.
pub open spec fn frame_length(n: int) -> bool {
    0 < n <= MAX_FRAME
}

/// The four bytes of a length, the lowest first.
pub open spec fn length_bytes(n: u32) -> Seq<u8> {
    seq![
        (n % 256) as u8,
        (n / 256 % 256) as u8,
        (n / 65536 % 256) as u8,
        (n / 16777216) as u8,
    ]
}

/// The length that four bytes stand for, the lowest first.
pub open spec fn length_of(b: Seq<u8>) -> int {
    b[0] + 256 * b[1] + 65536 * b[2] + 16777216 * b[3]
}

/// Whether a frame of a length is to be read.
pub fn check_length(n: u32) -> (r: Result<(), FrameError>)
    ensures
        r == if frame_length(n as int) {
            Ok(())
        } else {
            Err(FrameError::InvalidLength)
        },
{
    if n > 0 && n as usize <= MAX_FRAME {
        Ok(())
    } else {
        Err(FrameError::InvalidLength)
    }
}

/// A frame: the length of the bytes and the bytes.
pub fn write_frame(bytes: &[u8]) -> (r: Result<Vec<u8>, FrameError>)
    ensures
        match r {
            Ok(frame) => frame_length(bytes@.len() as int) && frame@ == length_bytes(
                bytes@.len() as u32,
            ) + bytes@,
            Err(e) => !frame_length(bytes@.len() as int) && e == FrameError::InvalidLength,
        },
{
    if !(bytes.len() > 0 && bytes.len() <= MAX_FRAME) {
        return Err(FrameError::InvalidLength);
    }
    let n: u32 = bytes.len() as u32;
    let mut frame: Vec<u8> = Vec::new();
    frame.push((n % 256) as u8);
    frame.push((n / 256 % 256) as u8);
    frame.push((n / 65536 % 256) as u8);
    frame.push((n / 16777216) as u8);
    let ghost head = frame@;
    assert(head =~= length_bytes(n));
    let mut i: usize = 0;
    while i < bytes.len()
        invariant
            i <= bytes@.len(),
            frame@ == head + bytes@.take(i as int),
        decreases bytes@.len() - i,
    {
        frame.push(bytes[i]);
        assert(frame@ =~= head + bytes@.take(i + 1));
        i += 1;
    }
    assert(bytes@.take(bytes@.len() as int) =~= bytes@);
    Ok(frame)
}

/// What reading a frame from the beginning of some input gives.
pub open spec fn frame_in(input: Seq<u8>) -> Result<Seq<u8>, FrameError> {
    if input.len() < 4 {
        Err(FrameError::Truncated)
    } else if !frame_length(length_of(input)) {
        Err(FrameError::InvalidLength)
    } else if input.len() < 4 + length_of(input) {
        Err(FrameError::Truncated)
    } else {
        Ok(input.subrange(4, 4 + length_of(input)))
    }
}

/// Reads the frame at the beginning of some input.
pub fn read_frame(input: &[u8]) -> (r: Result<Vec<u8>, FrameError>)
    ensures
        match r {
            Ok(bytes) => frame_in(input@) == Ok::<Seq<u8>, FrameError>(bytes@),
            Err(e) => frame_in(input@) == Err::<Seq<u8>, FrameError>(e),
        },
{
    if input.len() < 4 {
        return Err(FrameError::Truncated);
    }
    let n: u64 = input[0] as u64 + 256 * (input[1] as u64) + 65536 * (input[2] as u64) + 16777216
        * (input[3] as u64);
    if !(n > 0 && n <= MAX_FRAME as u64) {
        return Err(FrameError::InvalidLength);
    }
    let n: usize = n as usize;
    if input.len() - 4 < n {
        return Err(FrameError::Truncated);
    }
    Ok(vstd::slice::slice_to_vec(slice_subrange(input, 4, 4 + n)))
}

/// Reading gives back what was written, whatever follows, and nothing less
/// than the whole frame is read.
pub proof fn lemma_frame_round_trip(bytes: Seq<u8>, rest: Seq<u8>, cut: int)
    requires
        frame_length(bytes.len() as int),
        0 <= cut < 4 + bytes.len(),
    ensures
        frame_in(length_bytes(bytes.len() as u32) + bytes + rest) == Ok::<Seq<u8>, FrameError>(bytes),
        frame_in((length_bytes(bytes.len() as u32) + bytes).take(cut)) == Err::<
            Seq<u8>,
            FrameError,
        >(FrameError::Truncated),
{
    let n = bytes.len() as u32;
    let frame = length_bytes(n) + bytes;
    let input = frame + rest;
    assert(length_of(input) == n) by {
        assert(input[0] == (n % 256) as u8);
        assert(input[1] == (n / 256 % 256) as u8);
        assert(input[2] == (n / 65536 % 256) as u8);
        assert(input[3] == (n / 16777216) as u8);
        assert(n == n % 256 + 256 * (n / 256 % 256) + 65536 * (n / 65536 % 256) + 16777216 * (n
            / 16777216)) by (nonlinear_arith);
    }
    assert(input.subrange(4, 4 + n) =~= bytes);
    if cut >= 4 {
        let part = frame.take(cut);
        assert(part[0] == input[0] && part[1] == input[1] && part[2] == input[2] && part[3]
            == input[3]);
        assert(length_of(part) == n);
    }
}

/// The name of the pipe for a directory, given by its full path. It goes by the
/// path in lower case.
pub fn pipe_name(path: &str) -> (r: String)
    ensures
        r@ == "\\\\.\\pipe\\TwoDrive-"@ + hex_of(sha256_of(encode_utf8(lowercase_of(path@))))
            + "-v1"@,
{
    let lower = to_lowercase(path);
    let digest = sha256(lower.as_str().as_bytes());
    let hex = hex_text(digest.as_slice());
    let head = joined("\\\\.\\pipe\\TwoDrive-", hex.as_str());
    joined(head.as_str(), "-v1")
}

/// The name of a lock file in a directory.
pub fn lock_name(role: &str) -> (r: String)
    ensures
        r@ == role@ + ".lock"@,
{
    joined(role, ".lock")
}

/// Whether a reply is one to the request.
pub fn check_reply(request: &Request, reply: &Reply) -> (r: Result<(), FrameError>)
    ensures
        r == if reply.version == VERSION && reply.id@ == request.id@ {
            Ok(())
        } else {
            Err(FrameError::ResponseMismatch)
        },
{
    if reply.version == VERSION && same_text(reply.id.as_str(), request.id.as_str()) {
        Ok(())
    } else {
        Err(FrameError::ResponseMismatch)
    }
}

/// Whether a request that is read as a whole is within its limit.
pub fn check_input(len: usize) -> (r: Result<(), FrameError>)
    ensures
        r == if len <= MAX_FRAME {
            Ok(())
        } else {
            Err(FrameError::RequestTooLarge)
        },
{
    if len <= MAX_FRAME {
        Ok(())
    } else {
        Err(FrameError::RequestTooLarge)
    }
}

} // verus!
