//! Annotation of the lines of an instruction trace: a line that carries an
//! address gets the short string of the address's location put before it.

use crate::location::{
    address_location_to_string, get_segment_region_subregion, location_of, short_string,
    short_string_of_address,
};
use crate::text::{
    address_text, all_hex_digits, format_address, hex_digits_have_their_count, hex_number,
    low_word, lower_32_bits, pad_right, padded, parse_hex_spec, parse_hex_u64,
    sixteen_digits_always_parse, spaces,
};
use regex::Regex;
use vstd::prelude::*;
use vstd::string::*;

verus! {

/// The shape of a trace line that carries an address: three upper-case
/// letters, white space, sixteen lower-case hexadecimal digits, white space,
/// and the rest of the line.
pub const TRACE_PATTERN: &'static str = r"^([A-Z]{3})\s*([a-f0-9]{16})\s*(.*)$";

/// The width of the column that holds the short string.
pub const CODE_COLUMN_WIDTH: usize = 12;

/// Why a line could not be rewritten.
#[derive(Clone, Copy, Debug, PartialEq, Eq)]
pub enum TraceError {
    /// The line pattern was not accepted as a regular expression.
    InvalidPattern,
    /// The line has the shape of a trace line, but its digits are no 64-bit
    /// hexadecimal number.
    InvalidAddress,
}

/// The texts of the capture groups of one match, the whole match first;
/// `None` for a group that took no part in the match.
pub type Groups = Seq<Option<Seq<char>>>;

/// What the `regex` crate finds when `pattern` is compiled with `Regex::new`
/// and the first match in `haystack` is taken with `Regex::captures`: `None`
/// where the pattern is refused, `Some(None)` where nothing matches, and else
/// the groups of the match.
pub uninterp spec fn regex_captures(pattern: Seq<char>, haystack: Seq<char>) -> Option<
    Option<Seq<Option<Seq<char>>>>,
>;

/// Compiles `pattern` with `regex::Regex::new`, searches `haystack` with
/// `Regex::captures`, and copies out the text of each group as
/// `Captures::iter` yields them. Matching is a function of pattern and
/// haystack alone; the contract gives the outcome its name and claims nothing
/// else of it.
#[verifier::external_body]
pub(crate) fn captures(pattern: &str, haystack: &str) -> (r: Option<Option<Vec<Option<String>>>>)
    ensures
        r.deep_view() == regex_captures(pattern@, haystack@),
{
    let expression = Regex::new(pattern).ok()?;
    Some(
        expression.captures(haystack).map(
            |found| found.iter().map(|group| group.map(|m| String::from(m.as_str()))).collect(),
        ),
    )
}

/// The text of the group at `index`; empty where the match has no such group
/// or the group took no part.
pub open spec fn group_text(groups: Groups, index: int) -> Seq<char> {
    if 0 <= index < groups.len() && groups[index] is Some {
        groups[index]->Some_0
    } else {
        Seq::empty()
    }
}

/// The text of the group at `index`, empty where it is missing.
fn group<'a>(groups: &'a Vec<Option<String>>, index: usize) -> (r: &'a str)
    ensures
        r@ == group_text(groups.deep_view(), index as int),
{
    proof {
        reveal_strlit("");
        assert(""@ =~= Seq::<char>::empty());
    }
    if index < groups.len() {
        assert(groups.deep_view()[index as int] == groups@[index as int].deep_view());
        match &groups[index] {
            Some(text) => text.as_str(),
            None => "",
        }
    } else {
        ""
    }
}

/// A rewritten trace line: the prefix, the short string in its column, the
/// address, and the rest of the line, with one space between each two.
pub open spec fn annotated(
    prefix: Seq<char>,
    code: Seq<char>,
    address: u32,
    suffix: Seq<char>,
) -> Seq<char> {
    prefix + seq![' '] + padded(code, CODE_COLUMN_WIDTH as nat) + seq![' '] + address_text(address)
        + seq![' '] + suffix
}

/// Lays out a rewritten trace line.
pub fn format_trace_line(prefix: &str, code: &str, address: u32, suffix: &str) -> (r: String)
    ensures
        r@ == annotated(prefix@, code@, address, suffix@),
{
    proof {
        reveal_strlit(" ");
    }
    let column = pad_right(code, CODE_COLUMN_WIDTH);
    let number = format_address(address);
    let mut out = String::from_str(prefix);
    out.append(" ");
    out.append(column.as_str());
    out.append(" ");
    out.append(number.as_str());
    out.append(" ");
    out.append(suffix);
    assert(out@ =~= annotated(prefix@, code@, address, suffix@));
    out
}

/// The address that the digits of a trace line denote: the lower 32 bits of
/// the 64-bit number; `None` where the digits are no such number.
pub open spec fn trace_address(digits: Seq<char>) -> Option<u32> {
    match parse_hex_spec(digits) {
        Some(value) => Some(low_word(value)),
        None => None,
    }
}

/// One to sixteen hexadecimal digits, as the line pattern yields them, always
/// denote an address: the lower 32 bits of their number.
pub proof fn matched_digits_have_an_address(digits: Seq<char>)
    requires
        0 < digits.len() <= 16,
        all_hex_digits(digits),
    ensures
        trace_address(digits) == Some(low_word(hex_number(digits) as u64)),
{
    sixteen_digits_always_parse(digits);
}

/// The layout of a rewritten line for an address of the memory map: after the
/// prefix and one space, the short string takes seven of the twelve columns
/// and five spaces fill the rest; one space further the address takes ten
/// characters; one space further the rest of the line follows. The column
/// holds no small letter.
pub proof fn layout_of_annotated_line(prefix: Seq<char>, address: u32, suffix: Seq<char>)
    ensures
        annotated(prefix, short_string(location_of(address)), address, suffix) == prefix
            + seq![' '] + short_string(location_of(address)) + spaces(5) + seq![' ']
            + address_text(address) + seq![' '] + suffix,
        short_string(location_of(address)).len() == 7,
        address_text(address).len() == 10,
        annotated(prefix, short_string(location_of(address)), address, suffix).subrange(
            prefix.len() as int + 1,
            prefix.len() as int + 13,
        ) == padded(short_string(location_of(address)), 12),
        annotated(prefix, short_string(location_of(address)), address, suffix).subrange(
            prefix.len() as int + 14,
            prefix.len() as int + 24,
        ) == address_text(address),
        forall|i: int|
            0 <= i < 12 ==> !('a' <= (#[trigger] padded(short_string(location_of(address)), 12)[i])
                <= 'z'),
{
    let code = short_string(location_of(address));
    let line = annotated(prefix, code, address, suffix);
    short_string_of_address(address);
    hex_digits_have_their_count(address as nat, 8);
    assert(padded(code, 12) =~= code + spaces(5));
    assert(line =~= prefix + seq![' '] + code + spaces(5) + seq![' '] + address_text(address)
        + seq![' '] + suffix);
    assert(line.subrange(prefix.len() as int + 1, prefix.len() as int + 13) =~= padded(code, 12));
    assert(line.subrange(prefix.len() as int + 14, prefix.len() as int + 24) =~= address_text(address));
    assert forall|i: int| 0 <= i < 12 implies !('a' <= (#[trigger] padded(code, 12)[i])
        <= 'z') by {
        if i < 7 {
            assert(padded(code, 12)[i] == code[i]);
        }
    }
}

/// The line that the groups of a matched trace line are rewritten to: group 1
/// is the prefix, group 2 the digits of the address, group 3 the rest.
pub open spec fn annotate_groups_spec(groups: Groups) -> Result<Seq<char>, TraceError> {
    match trace_address(group_text(groups, 2)) {
        Some(address) => Ok(
            annotated(
                group_text(groups, 1),
                short_string(location_of(address)),
                address,
                group_text(groups, 3),
            ),
        ),
        None => Err(TraceError::InvalidAddress),
    }
}

/// A match whose digits are one to sixteen hexadecimal digits is always
/// rewritten, with the lower 32 bits of their number as its address.
pub proof fn matched_line_is_rewritten(groups: Groups)
    requires
        0 < group_text(groups, 2).len() <= 16,
        all_hex_digits(group_text(groups, 2)),
    ensures
        annotate_groups_spec(groups) == Ok::<Seq<char>, TraceError>(
            annotated(
                group_text(groups, 1),
                short_string(location_of(low_word(hex_number(group_text(groups, 2)) as u64))),
                low_word(hex_number(group_text(groups, 2)) as u64),
                group_text(groups, 3),
            ),
        ),
{
    matched_digits_have_an_address(group_text(groups, 2));
}

/// The value of a rewritten line or of the failure to rewrite it.
pub open spec fn outcome_view(outcome: Result<String, TraceError>) -> Result<
    Seq<char>,
    TraceError,
> {
    match outcome {
        Ok(line) => Ok(line@),
        Err(e) => Err(e),
    }
}

/// Rewrites a matched trace line from its capture groups: reads the address
/// from the digits, resolves it, and puts its short string and the 32-bit
/// address between prefix and rest. Fails where the digits are no 64-bit
/// hexadecimal number.
pub fn annotate_groups(groups: &Vec<Option<String>>) -> (r: Result<String, TraceError>)
    ensures
        outcome_view(r) == annotate_groups_spec(groups.deep_view()),
{
    let prefix = group(groups, 1);
    let digits = group(groups, 2);
    let suffix = group(groups, 3);
    match parse_hex_u64(digits) {
        Some(value) => {
            let address = lower_32_bits(value);
            let location = get_segment_region_subregion(address);
            let code = address_location_to_string(&location);
            Ok(format_trace_line(prefix, code.as_str(), address, suffix))
        },
        None => Err(TraceError::InvalidAddress),
    }
}

/// What a line is rewritten to, given what the line pattern found in it: a
/// line without a match stays as it is.
pub open spec fn rewrite_spec(line: Seq<char>, found: Option<Option<Groups>>) -> Result<
    Seq<char>,
    TraceError,
> {
    match found {
        None => Err(TraceError::InvalidPattern),
        Some(None) => Ok(line),
        Some(Some(groups)) => annotate_groups_spec(groups),
    }
}

/// Rewrites one line given the outcome of the search for the line pattern.
pub fn rewrite_found(line: &str, found: &Option<Option<Vec<Option<String>>>>) -> (r: Result<
    String,
    TraceError,
>)
    ensures
        outcome_view(r) == rewrite_spec(line@, found.deep_view()),
{
    match found {
        None => Err(TraceError::InvalidPattern),
        Some(None) => Ok(String::from_str(line)),
        Some(Some(groups)) => annotate_groups(groups),
    }
}

/// Rewrites one line of a trace. A line of the shape of `TRACE_PATTERN` is
/// annotated; any other line comes back unchanged.
pub fn rewrite_line(line: &str) -> (r: Result<String, TraceError>)
    ensures
        outcome_view(r) == rewrite_spec(line@, regex_captures(TRACE_PATTERN@, line@)),
{
    let found = captures(TRACE_PATTERN, line);
    rewrite_found(line, &found)
}

} // verus!
