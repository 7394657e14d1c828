//! The YADIL grammar, stated as total specification functions over the raw
//! input bytes.
//!
//! Every function here is a mathematical definition: given the input and a
//! start position it says exactly which value a construct denotes, or with
//! which kind and at which byte offset the parse fails. The executable parser
//! is proved to return precisely these results.
//!
//! Positions in errors are the number of bytes the parser had consumed when
//! the failure was detected.

use vstd::prelude::*;
use vstd::utf8::decode_utf8;
use vstd::utf8::valid_utf8;

use crate::error::ErrorKind;
use crate::value::Decimal;
use crate::value::SpecValue;

verus! {

/// How deep collections may nest. Deeper input is rejected as malformed
/// rather than risking unbounded recursion.
pub const NEST_LIMIT: usize = 64;

/// A failure: its kind and the byte offset at which it was detected.
pub ghost struct SpecErr {
    pub kind: ErrorKind,
    pub at: int,
}

/// A failed result.
pub open spec fn perr<T>(kind: ErrorKind, at: int) -> Result<T, SpecErr> {
    Err(SpecErr { kind, at })
}

/// Bytes that are skipped between tokens: space, newline, carriage return,
/// horizontal tab.
pub open spec fn is_ws(b: u8) -> bool {
    b == 32 || b == 10 || b == 13 || b == 9
}

/// An ASCII decimal digit.
pub open spec fn is_digit(b: u8) -> bool {
    48 <= b <= 57
}

/// The bytes that can start a type tag: `s u i f b l m`.
pub open spec fn is_tag_start(b: u8) -> bool {
    b == 115 || b == 117 || b == 105 || b == 102 || b == 98 || b == 108 || b == 109
}

/// An unescaped occurrence of the structural byte `t` at position `i`: the
/// byte matches and the byte just before it, if there is one, is not a
/// backslash.
pub open spec fn delim_at(s: Seq<u8>, i: int, t: u8) -> bool {
    s[i] == t && (i == 0 || s[i - 1] != 92)
}

/// Every byte is a digit.
pub open spec fn all_digits(s: Seq<u8>) -> bool {
    forall|i: int| 0 <= i < s.len() ==> is_digit(s[i])
}

/// The standard positional base-10 reading of a digit run, most significant
/// digit first. Meaningful only when `all_digits` holds.
pub open spec fn digits_val(s: Seq<u8>) -> int
    decreases s.len(),
{
    if s.len() == 0 {
        0
    } else {
        digits_val(s.drop_last()) * 10 + s.last() - 48
    }
}

/// The length of the leading run of `-` bytes.
pub open spec fn dash_run(s: Seq<u8>) -> int
    decreases s.len(),
{
    if s.len() == 0 || s[0] != 45 {
        0
    } else {
        1 + dash_run(s.skip(1))
    }
}

/// An unsigned literal: every byte a digit, and the value within the machine
/// word. `None` is a `WrongValue` failure.
pub open spec fn dec_unsigned(s: Seq<u8>) -> Option<SpecValue> {
    if all_digits(s) && digits_val(s) <= usize::MAX as int {
        Some(SpecValue::Unsigned(digits_val(s) as usize))
    } else {
        None
    }
}

/// A signed literal: a leading run of `-` bytes toggles the sign once per
/// dash (so `--5` is positive), then digits; a `-` after a digit, or any
/// other non-digit, fails, as does a value outside the machine word.
pub open spec fn dec_signed(s: Seq<u8>) -> Option<SpecValue> {
    let rest = s.skip(dash_run(s));
    let neg = dash_run(s) % 2 == 1;
    let m = digits_val(rest);
    if all_digits(rest) && (if neg {
        m <= isize::MAX as int + 1
    } else {
        m <= isize::MAX as int
    }) {
        Some(SpecValue::Signed((if neg {
            -m
        } else {
            m
        }) as isize))
    } else {
        None
    }
}

/// One step per byte of the float literal scan. A `-` before any digit
/// toggles the sign; a single `.` starts the fractional part; digits
/// accumulate into the mantissa, counting those after the point into the
/// scale. A `-` after a digit, a second `.`, any other byte, or a mantissa
/// beyond the machine word fails.
pub open spec fn float_scan(
    s: Seq<u8>,
    i: int,
    seen_digit: bool,
    in_dec: bool,
    neg: bool,
    m: int,
    scale: int,
) -> Option<Decimal>
    decreases s.len() - i,
{
    if i >= s.len() {
        if m <= u64::MAX as int && scale <= usize::MAX as int {
            Some(Decimal { neg, mantissa: m as u64, scale: scale as usize })
        } else {
            None
        }
    } else if s[i] == 45 {
        if seen_digit {
            None
        } else {
            float_scan(s, i + 1, seen_digit, in_dec, !neg, m, scale)
        }
    } else if s[i] == 46 {
        if in_dec {
            None
        } else {
            float_scan(s, i + 1, seen_digit, true, neg, m, scale)
        }
    } else if is_digit(s[i]) {
        float_scan(
            s,
            i + 1,
            true,
            in_dec,
            neg,
            m * 10 + s[i] - 48,
            if in_dec {
                scale + 1
            } else {
                scale
            },
        )
    } else {
        None
    }
}

/// A float literal.
pub open spec fn dec_float(s: Seq<u8>) -> Option<SpecValue> {
    match float_scan(s, 0, false, false, false, 0, 0) {
        Some(d) => Some(SpecValue::Float(d)),
        None => None,
    }
}

/// The bytes `true`.
pub open spec fn is_true_lit(s: Seq<u8>) -> bool {
    s.len() == 4 && s[0] == 116 && s[1] == 114 && s[2] == 117 && s[3] == 101
}

/// The bytes `false`.
pub open spec fn is_false_lit(s: Seq<u8>) -> bool {
    s.len() == 5 && s[0] == 102 && s[1] == 97 && s[2] == 108 && s[3] == 115 && s[4] == 101
}

/// A bool literal: exactly `true`, `t`, `false` or `f`.
pub open spec fn dec_bool(s: Seq<u8>) -> Option<SpecValue> {
    if is_true_lit(s) || (s.len() == 1 && s[0] == 116) {
        Some(SpecValue::Bool(true))
    } else if is_false_lit(s) || (s.len() == 1 && s[0] == 102) {
        Some(SpecValue::Bool(false))
    } else {
        None
    }
}

/// A string literal: the raw bytes must be valid UTF-8 and decode to the
/// string's characters.
pub open spec fn dec_string(s: Seq<u8>) -> Option<SpecValue> {
    if valid_utf8(s) {
        Some(SpecValue::String(decode_utf8(s)))
    } else {
        None
    }
}

/// The `s` / `str` tag.
pub open spec fn is_string_tag(t: Seq<u8>) -> bool {
    ||| t.len() == 1 && t[0] == 115
    ||| t.len() == 3 && t[0] == 115 && t[1] == 116 && t[2] == 114
}

/// The `u` / `uint` tag.
pub open spec fn is_unsigned_tag(t: Seq<u8>) -> bool {
    ||| t.len() == 1 && t[0] == 117
    ||| t.len() == 4 && t[0] == 117 && t[1] == 105 && t[2] == 110 && t[3] == 116
}

/// The `i` / `sint` tag.
pub open spec fn is_signed_tag(t: Seq<u8>) -> bool {
    ||| t.len() == 1 && t[0] == 105
    ||| t.len() == 4 && t[0] == 115 && t[1] == 105 && t[2] == 110 && t[3] == 116
}

/// The `f` / `float` tag.
pub open spec fn is_float_tag(t: Seq<u8>) -> bool {
    ||| t.len() == 1 && t[0] == 102
    ||| t.len() == 5 && t[0] == 102 && t[1] == 108 && t[2] == 111 && t[3] == 97 && t[4] == 116
}

/// The `b` / `bool` tag.
pub open spec fn is_bool_tag(t: Seq<u8>) -> bool {
    ||| t.len() == 1 && t[0] == 98
    ||| t.len() == 4 && t[0] == 98 && t[1] == 111 && t[2] == 111 && t[3] == 108
}

/// The `l` / `list` tag.
pub open spec fn is_list_tag(t: Seq<u8>) -> bool {
    ||| t.len() == 1 && t[0] == 108
    ||| t.len() == 4 && t[0] == 108 && t[1] == 105 && t[2] == 115 && t[3] == 116
}

/// The `m` / `map` tag.
pub open spec fn is_map_tag(t: Seq<u8>) -> bool {
    ||| t.len() == 1 && t[0] == 109
    ||| t.len() == 3 && t[0] == 109 && t[1] == 97 && t[2] == 112
}

/// A tag naming a scalar type.
pub open spec fn is_scalar_tag(t: Seq<u8>) -> bool {
    is_string_tag(t) || is_unsigned_tag(t) || is_signed_tag(t) || is_float_tag(t) || is_bool_tag(t)
}

/// The decoder a scalar tag selects, applied to the raw value bytes.
pub open spec fn dec_scalar(t: Seq<u8>, data: Seq<u8>) -> Option<SpecValue> {
    if is_string_tag(t) {
        dec_string(data)
    } else if is_unsigned_tag(t) {
        dec_unsigned(data)
    } else if is_signed_tag(t) {
        dec_signed(data)
    } else if is_float_tag(t) {
        dec_float(data)
    } else {
        dec_bool(data)
    }
}

/// Scan the type tag from position `i`: whitespace is dropped, every other
/// byte joins the token, until an unescaped `@`. Returns the token and the
/// position just after the `@`, or the end of input if no `@` came.
pub open spec fn sp_tag(s: Seq<u8>, i: int, tag: Seq<u8>) -> (Seq<u8>, int)
    decreases s.len() - i,
{
    if i >= s.len() {
        (tag, s.len() as int)
    } else if delim_at(s, i, 64) {
        (tag, i + 1)
    } else if is_ws(s[i]) {
        sp_tag(s, i + 1, tag)
    } else {
        sp_tag(s, i + 1, tag.push(s[i]))
    }
}

/// Scan `identifier=value` up to its terminating unescaped `;`, from
/// position `i`, with the bytes collected so far and whether the `=` was
/// seen. Rules, each applied the moment the byte is read:
/// - an unescaped `=` with no identifier bytes yet fails `EmptyIdent`;
///   otherwise it switches (and keeps) collection to the value;
/// - an unescaped `;` with no identifier bytes fails `UnexpectedChar`, with
///   no `=` seen or no value bytes fails `WrongValue`, and otherwise ends
///   the scan successfully;
/// - whitespace is dropped while scanning the identifier or before the first
///   value byte, and kept once the value has started;
/// - every other byte, escaped delimiters and their backslashes included,
///   joins the identifier or the value;
/// - input ending before the `;` fails `WrongValue`.
pub open spec fn sp_assign(
    s: Seq<u8>,
    i: int,
    ident: Seq<u8>,
    data: Seq<u8>,
    in_value: bool,
) -> Result<(Seq<u8>, Seq<u8>, int), SpecErr>
    decreases s.len() - i,
{
    if i >= s.len() {
        perr(ErrorKind::WrongValue, s.len() as int)
    } else if delim_at(s, i, 61) {
        if ident.len() == 0 {
            perr(ErrorKind::EmptyIdent, i + 1)
        } else {
            sp_assign(s, i + 1, ident, data, true)
        }
    } else if delim_at(s, i, 59) {
        if ident.len() == 0 {
            perr(ErrorKind::UnexpectedChar, i + 1)
        } else if !in_value || data.len() == 0 {
            perr(ErrorKind::WrongValue, i + 1)
        } else {
            Ok((ident, data, i + 1))
        }
    } else if is_ws(s[i]) && (!in_value || data.len() == 0) {
        sp_assign(s, i + 1, ident, data, in_value)
    } else if in_value {
        sp_assign(s, i + 1, ident, data.push(s[i]), in_value)
    } else {
        sp_assign(s, i + 1, ident.push(s[i]), data, in_value)
    }
}

/// Scan a collection's identifier up to its unescaped `=`, from position
/// `i`. The rules are those of `sp_assign` restricted to the identifier
/// half: the collection's elements follow the `=` and are parsed
/// recursively, not scanned as raw bytes.
pub open spec fn sp_ident(s: Seq<u8>, i: int, ident: Seq<u8>) -> Result<(Seq<u8>, int), SpecErr>
    decreases s.len() - i,
{
    if i >= s.len() {
        perr(ErrorKind::WrongValue, s.len() as int)
    } else if delim_at(s, i, 61) {
        if ident.len() == 0 {
            perr(ErrorKind::EmptyIdent, i + 1)
        } else {
            Ok((ident, i + 1))
        }
    } else if delim_at(s, i, 59) {
        if ident.len() == 0 {
            perr(ErrorKind::UnexpectedChar, i + 1)
        } else {
            perr(ErrorKind::WrongValue, i + 1)
        }
    } else if is_ws(s[i]) {
        sp_ident(s, i + 1, ident)
    } else {
        sp_ident(s, i + 1, ident.push(s[i]))
    }
}

/// The position just after the unescaped `#` that closes a comment, scanning
/// from `i`; input ending first fails `UnexpectedChar` (unterminated
/// comment).
pub open spec fn sp_comment_end(s: Seq<u8>, i: int) -> Result<int, SpecErr>
    decreases s.len() - i,
{
    if i >= s.len() {
        perr(ErrorKind::UnexpectedChar, s.len() as int)
    } else if delim_at(s, i, 35) {
        Ok(i + 1)
    } else {
        sp_comment_end(s, i + 1)
    }
}

/// The values of a run of element pairs, in order.
pub open spec fn pairs_values(ps: Seq<(Seq<u8>, SpecValue)>) -> Seq<SpecValue> {
    ps.map_values(|p: (Seq<u8>, SpecValue)| p.1)
}

/// The mapping a run of element pairs denotes: a later pair with the same
/// key overwrites an earlier one.
pub open spec fn pairs_map(ps: Seq<(Seq<u8>, SpecValue)>) -> Map<Seq<u8>, SpecValue>
    decreases ps.len(),
{
    if ps.len() == 0 {
        Map::empty()
    } else {
        pairs_map(ps.drop_last()).insert(ps.last().0, ps.last().1)
    }
}

/// One type-tagged assignment `tag@identifier=value;` from position `i`:
/// the tag selects a scalar decoder for the raw value bytes, or the
/// recursive collection grammar for `l`/`list` and `m`/`map`. Any other tag
/// fails `UnexpectedChar`; a scalar whose bytes fail decoding fails
/// `WrongValue`; nesting deeper than `depth` levels fails `WrongValue`.
/// Returns the identifier, the value, and the position after the `;`.
pub open spec fn sp_assign_start(s: Seq<u8>, i: int, depth: nat) -> Result<
    (Seq<u8>, SpecValue, int),
    SpecErr,
>
    decreases s.len() - i, depth, 0int,
{
    let (tag, j) = sp_tag(s, i, Seq::empty());
    if is_scalar_tag(tag) {
        match sp_assign(s, j, Seq::empty(), Seq::empty(), false) {
            Ok((ident, data, j2)) => match dec_scalar(tag, data) {
                Some(v) => Ok((ident, v, j2)),
                None => perr(ErrorKind::WrongValue, j2),
            },
            Err(e) => Err(e),
        }
    } else if is_list_tag(tag) || is_map_tag(tag) {
        if depth == 0 {
            perr(ErrorKind::WrongValue, j)
        } else {
            match sp_ident(s, j, Seq::empty()) {
                Ok((ident, j2)) => if j2 <= i || s.len() < j2 {
                    // Scanning always advances within the input, so this
                    // arm is never reached; it carries the termination
                    // measure of the recursion.
                    perr(ErrorKind::WrongValue, j2)
                } else {
                    match sp_elems(s, j2, Seq::empty(), (depth - 1) as nat) {
                        Ok((pairs, j3)) => if is_list_tag(tag) {
                            Ok((ident, SpecValue::List(pairs_values(pairs)), j3))
                        } else {
                            Ok((ident, SpecValue::Mapping(pairs_map(pairs)), j3))
                        },
                        Err(e) => Err(e),
                    }
                },
                Err(e) => Err(e),
            }
        }
    } else {
        perr(ErrorKind::UnexpectedChar, j)
    }
}

/// The elements of a collection from position `i`: whitespace is skipped,
/// an unescaped `;` closes the collection, a tag-start byte begins one
/// recursively parsed element (a full type-tagged assignment, whose
/// identifier is the pair's key), and any other byte fails
/// `UnexpectedChar`; input ending first fails `WrongValue` (unterminated
/// collection). Returns the pairs in order and the position after the
/// closing `;`.
pub open spec fn sp_elems(
    s: Seq<u8>,
    i: int,
    acc: Seq<(Seq<u8>, SpecValue)>,
    depth: nat,
) -> Result<(Seq<(Seq<u8>, SpecValue)>, int), SpecErr>
    decreases s.len() - i, depth, 1int,
{
    if i >= s.len() {
        perr(ErrorKind::WrongValue, s.len() as int)
    } else if delim_at(s, i, 59) {
        Ok((acc, i + 1))
    } else if is_ws(s[i]) {
        sp_elems(s, i + 1, acc, depth)
    } else if is_tag_start(s[i]) {
        match sp_assign_start(s, i, depth) {
            Ok((k, v, i2)) => if i2 <= i || s.len() < i2 {
                // Never reached: parsing an element consumes at least one
                // byte and stays within the input. Carries the termination
                // measure.
                perr(ErrorKind::WrongValue, i2)
            } else {
                sp_elems(s, i2, acc.push((k, v)), depth)
            },
            Err(e) => Err(e),
        }
    } else {
        perr(ErrorKind::UnexpectedChar, i)
    }
}

/// The whole message from position `i`: a null byte or the end of input
/// closes the message; whitespace is skipped; `#` opens a comment that runs
/// to the next unescaped `#`; a tag-start byte begins an assignment whose
/// identifier/value pair joins the accumulated mapping, a repeated
/// identifier overwriting the earlier entry; any other byte fails
/// `UnexpectedChar` at its own position.
pub open spec fn sp_msg(s: Seq<u8>, i: int, acc: Map<Seq<u8>, SpecValue>) -> Result<
    Map<Seq<u8>, SpecValue>,
    SpecErr,
>
    decreases s.len() - i,
{
    if i >= s.len() {
        Ok(acc)
    } else if s[i] == 0 {
        Ok(acc)
    } else if is_ws(s[i]) {
        sp_msg(s, i + 1, acc)
    } else if s[i] == 35 {
        match sp_comment_end(s, i + 1) {
            Ok(p) => if p <= i || s.len() < p {
                // Never reached: the closing delimiter lies ahead of `i`.
                // Carries the termination measure.
                perr(ErrorKind::UnexpectedChar, p)
            } else {
                sp_msg(s, p, acc)
            },
            Err(e) => Err(e),
        }
    } else if is_tag_start(s[i]) {
        match sp_assign_start(s, i, NEST_LIMIT as nat) {
            Ok((k, v, i2)) => if i2 <= i || s.len() < i2 {
                // Never reached, as in `sp_elems`.
                perr(ErrorKind::WrongValue, i2)
            } else {
                sp_msg(s, i2, acc.insert(k, v))
            },
            Err(e) => Err(e),
        }
    } else {
        perr(ErrorKind::UnexpectedChar, i)
    }
}

/// What a whole input denotes: the message mapping, or the first failure.
pub open spec fn sp_parse(s: Seq<u8>) -> Result<Map<Seq<u8>, SpecValue>, SpecErr> {
    sp_msg(s, 0, Map::empty())
}

} // verus!
