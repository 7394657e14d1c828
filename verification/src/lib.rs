//! A parser for YADIL, a compact typed key/value serialization format.
//!
//! A YADIL message is a byte stream of `type@identifier=value;` assignments
//! with scalar types (string, unsigned, signed, float, bool), nested
//! collections (list, map), `#`-delimited comments, and backslash escaping of
//! structural bytes.

use vstd::math::min;
use vstd::prelude::*;

pub mod error;
pub mod grammar;
mod literals;
pub mod parser;
pub mod value;

pub use error::Error;
pub use error::ErrorKind;
pub use value::Assign;
pub use value::Decimal;
pub use value::Message;
pub use value::SpecValue;
pub use value::Value;
pub use parser::Parser;

use grammar::perr;
use grammar::sp_parse;
use grammar::SpecErr;

verus! {

/// What `parse` promises of its result: a message equal to the one the
/// grammar denotes for this input, with pairwise-distinct keys, or the
/// grammar's failure with its exact kind and byte offset.
pub open spec fn parse_result_matches(s: Seq<u8>, r: Result<Message, Error>) -> bool {
    match r {
        Ok(m) => sp_parse(s) == Ok::<Map<Seq<u8>, SpecValue>, SpecErr>(m@) && m.wf(),
        Err(e) => sp_parse(s) == perr::<Map<Seq<u8>, SpecValue>>(e.kind, e.index as int),
    }
}

/// Parse a YADIL message.
///
/// Total over all byte buffers: it returns a message or an error, never
/// panics, and the result is exactly what the grammar denotes.
pub fn parse(input: &[u8]) -> (r: Result<Message, Error>)
    ensures
        parse_result_matches(input@, r),
{
    let mut p = Parser::new(input);
    p.parse()
}

/// Parsing is deterministic: any two results that `parse`'s contract admits
/// for the same input agree — equal messages on success, the same kind and
/// byte offset on failure.
pub proof fn lemma_parse_deterministic(
    s: Seq<u8>,
    r1: Result<Message, Error>,
    r2: Result<Message, Error>,
)
    requires
        parse_result_matches(s, r1),
        parse_result_matches(s, r2),
    ensures
        match (r1, r2) {
            (Ok(m1), Ok(m2)) => m1@ == m2@,
            (Err(e1), Err(e2)) => e1.kind == e2.kind && e1.index == e2.index,
            _ => false,
        },
{
}

/// The empty input is a valid message: it denotes the empty mapping.
pub proof fn lemma_parse_empty()
    ensures
        sp_parse(Seq::empty()) == Ok::<Map<Seq<u8>, SpecValue>, SpecErr>(Map::empty()),
{
}

/// Converts a byte index into a 1-indexed line and a column.
///
/// The column starts at 2 for index 0, a documented quirk kept for
/// compatibility: callers wanting 1-indexed columns adjust by one.
pub fn index_to_line_col(input: &[u8], index: usize) -> (r: (usize, usize))
    requires
        input@.len() + 2 <= usize::MAX,
    ensures
        (r.0 as int, r.1 as int) == spec_line_col(
            input@.take(min(index as int, input@.len() as int)),
        ),
{
    let mut line: usize = 1;
    let mut col: usize = 2;
    let end: usize = if index < input.len() {
        index
    } else {
        input.len()
    };
    let mut i: usize = 0;
    while i < end
        invariant
            input@.len() + 2 <= usize::MAX,
            0 <= i <= end <= input@.len(),
            end == min(index as int, input@.len() as int),
            (line as int, col as int) == spec_line_col(input@.take(i as int)),
            line <= i + 1,
            col <= i + 2,
        decreases end - i,
    {
        proof {
            assert(input@.take(i + 1).drop_last() =~= input@.take(i as int));
        }
        if input[i] == 10 {
            line = line + 1;
            col = 1;
        } else {
            col = col + 1;
        }
        i = i + 1;
    }
    (line, col)
}

/// The line and column reached after reading `prefix`: lines are 1-indexed
/// and advance at each newline byte; the column restarts at 1 after a
/// newline and otherwise counts from 2.
pub open spec fn spec_line_col(prefix: Seq<u8>) -> (int, int)
    decreases prefix.len(),
{
    if prefix.len() == 0 {
        (1, 2)
    } else {
        let (line, col) = spec_line_col(prefix.drop_last());
        if prefix.last() == 10 {
            (line + 1, 1)
        } else {
            (line, col + 1)
        }
    }
}

} // verus!
