//! What a command-line argument asks for: the location of one address, or
//! the annotation of a trace file.

use crate::text::{hex_value, parse_hex_u64};
use vstd::prelude::*;
use vstd::string::*;

verus! {

/// What an argument asks for.
#[derive(Clone, Copy, Debug, PartialEq, Eq)]
pub enum Request {
    /// The argument names this address.
    Address(u32),
    /// The argument starts like an address, but what follows `0x` is no
    /// 32-bit hexadecimal number.
    InvalidAddress,
    /// The argument is taken as the name of a trace file.
    TraceFile,
}

/// Whether the argument begins with `0x`.
pub open spec fn has_address_prefix(argument: Seq<char>) -> bool {
    argument.len() >= 2 && argument[0] == '0' && argument[1] == 'x'
}

/// What parsing a text as a hexadecimal 32-bit address gives: the number it
/// denotes, when it denotes one that is at most `u32::MAX`.
pub open spec fn parse_address_spec(text: Seq<char>) -> Option<u32> {
    match hex_value(text) {
        Some(value) => if value <= u32::MAX {
            Some(value as u32)
        } else {
            None
        },
        None => None,
    }
}

/// What an argument asks for: with the prefix `0x` it is an address, valid or
/// not; without, the name of a file.
pub open spec fn interpret_spec(argument: Seq<char>) -> Request {
    if has_address_prefix(argument) {
        match parse_address_spec(argument.subrange(2, argument.len() as int)) {
            Some(address) => Request::Address(address),
            None => Request::InvalidAddress,
        }
    } else {
        Request::TraceFile
    }
}

/// Parses a hexadecimal number of at most 32 bits: one or more digits, in
/// either case, with or without a plus sign before them.
pub fn parse_address(digits: &str) -> (r: Option<u32>)
    ensures
        r == parse_address_spec(digits@),
{
    match parse_hex_u64(digits) {
        Some(value) => {
            if value <= 0xFFFF_FFFF {
                Some(value as u32)
            } else {
                None
            }
        },
        None => None,
    }
}

/// Decides what a command-line argument asks for.
pub fn interpret_argument(argument: &str) -> (r: Request)
    ensures
        r == interpret_spec(argument@),
{
    let n: usize = argument.unicode_len();
    if n >= 2 && argument.get_char(0) == '0' && argument.get_char(1) == 'x' {
        match parse_address(argument.substring_char(2, n)) {
            Some(address) => Request::Address(address),
            None => Request::InvalidAddress,
        }
    } else {
        Request::TraceFile
    }
}

} // verus!
