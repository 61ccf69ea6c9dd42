//! The instructions of a glyph: a size and that many bytes, which this
//! crate hands on as they are.

use vstd::prelude::*;
use crate::error::Error;
use crate::tape::{bytes_at, u16_at, Parsed, Tape};

verus! {

/// The instructions at `at`: their size in bytes, then the bytes.
pub open spec fn instructions_at(bytes: Seq<u8>, at: int) -> Parsed<(u16, Seq<u8>)> {
    let size = u16_at(bytes, at);
    match size.outcome {
        Err(error) => Parsed::fail(error, size.end),
        Ok(instruction_size) => {
            let code = bytes_at(bytes, size.end, instruction_size as nat);
            match code.outcome {
                Err(error) => Parsed::fail(error, code.end),
                Ok(instructions) => Parsed::done((instruction_size, instructions), code.end),
            }
        },
    }
}

/// Reads the size of the instructions and then the instructions.
pub fn read_instructions(tape: &mut Tape) -> (result: Result<(u16, Vec<u8>), Error>)
    ensures
        final(tape)@.bytes == old(tape)@.bytes,
        final(tape)@.position == instructions_at(old(tape)@.bytes, old(tape)@.position).end,
        match result {
            Ok((instruction_size, instructions)) => instructions_at(
                old(tape)@.bytes,
                old(tape)@.position,
            ).outcome == Ok::<(u16, Seq<u8>), Error>((instruction_size, instructions@)),
            Err(error) => instructions_at(old(tape)@.bytes, old(tape)@.position).outcome == Err::<
                (u16, Seq<u8>),
                Error,
            >(error),
        },
{
    let instruction_size = match tape.read_u16() {
        Ok(size) => size,
        Err(error) => {
            return Err(error);
        },
    };
    let instructions = match tape.read_bytes(instruction_size as usize) {
        Ok(instructions) => instructions,
        Err(error) => {
            return Err(error);
        },
    };
    Ok((instruction_size, instructions))
}

} // verus!
