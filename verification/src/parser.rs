//! The cursor and the parsing engine: a read position over the caller's
//! byte buffer, the assignment scanner, the type-tag dispatcher, the
//! recursive collection parser and the top-level message assembler.

use vstd::prelude::*;

use crate::error::Error;
use crate::error::ErrorKind;
use crate::grammar::delim_at;
use crate::grammar::is_bool_tag;
use crate::grammar::is_float_tag;
use crate::grammar::is_list_tag;
use crate::grammar::is_map_tag;
use crate::grammar::is_signed_tag;
use crate::grammar::is_string_tag;
use crate::grammar::is_tag_start;
use crate::grammar::is_unsigned_tag;
use crate::grammar::is_ws;
use crate::grammar::pairs_map;
use crate::grammar::pairs_values;
use crate::grammar::perr;
use crate::grammar::sp_assign;
use crate::grammar::sp_assign_start;
use crate::grammar::sp_comment_end;
use crate::grammar::sp_elems;
use crate::grammar::sp_ident;
use crate::grammar::sp_msg;
use crate::grammar::sp_tag;
use crate::grammar::SpecErr;
use crate::grammar::NEST_LIMIT;
use crate::value::assign_pairs_view;
use crate::value::list_view;
use crate::value::value_view;
use crate::value::Assign;
use crate::value::Message;
use crate::value::SpecValue;
use crate::value::Value;

verus! {

/// A cursor over the input: the borrowed buffer and the current byte index.
///
/// The buffer is never mutated; only the index advances.
pub struct Parser<'a> {
    pub input: &'a [u8],
    pub index: usize,
}

impl<'a> Parser<'a> {
    /// A parser at the start of `input`.
    pub fn new(input: &'a [u8]) -> (r: Parser<'a>)
        ensures
            r.input@ == input@,
            r.index == 0,
    {
        Parser { input, index: 0 }
    }

    /// Look ahead `amount` bytes past the cursor without consuming.
    pub fn peek(&self, amount: usize) -> (r: Option<u8>)
        ensures
            r == if self.index + amount < self.input@.len() {
                Some(self.input@[self.index + amount])
            } else {
                None::<u8>
            },
    {
        if self.index < self.input.len() && amount < self.input.len() - self.index {
            Some(self.input[self.index + amount])
        } else {
            None
        }
    }

    /// Return the byte under the cursor and advance by one, or `None` at the
    /// end of the input.
    pub fn next(&mut self) -> (r: Option<u8>)
        ensures
            final(self).input@ == old(self).input@,
            r == if old(self).index < old(self).input@.len() {
                Some(old(self).input@[old(self).index as int])
            } else {
                None::<u8>
            },
            final(self).index == if old(self).index < old(self).input@.len() {
                old(self).index + 1
            } else {
                old(self).index as int
            },
    {
        if self.index >= self.input.len() {
            return None;
        }
        let b = self.input[self.index];
        self.index = self.index + 1;
        Some(b)
    }

    /// Whether the byte at position `at` is an unescaped occurrence of
    /// `expected`: it matches and is not preceded by a backslash.
    pub fn maybe_escaped(&self, at: usize, expected: u8) -> (r: bool)
        requires
            at < self.input@.len(),
        ensures
            r == delim_at(self.input@, at as int, expected),
    {
        self.input[at] == expected && (at == 0 || self.input[at - 1] != 92)
    }

    /// A new error at the cursor's position.
    pub fn error(&self, kind: ErrorKind, message: &str) -> (r: Error)
        ensures
            r.kind == kind,
            r.index == self.index,
    {
        Error::new(kind, message.to_string(), self.index)
    }

    /// Scan one `identifier=value;` unit from the cursor, honouring escaping
    /// and whitespace rules, and return the raw identifier and value bytes;
    /// the cursor ends just past the `;`. The failures, each with its exact
    /// position, are those of the grammar's assignment scanner.
    pub fn parse_assign(&mut self) -> (r: Result<(Vec<u8>, Vec<u8>), Error>)
        ensures
            final(self).input@ == old(self).input@,
            match r {
                Ok(p) => {
                    &&& sp_assign(
                        old(self).input@,
                        old(self).index as int,
                        Seq::empty(),
                        Seq::empty(),
                        false,
                    ) == Ok::<_, SpecErr>((p.0@, p.1@, final(self).index as int))
                    &&& old(self).index < final(self).index <= old(self).input@.len()
                },
                Err(e) => sp_assign(
                    old(self).input@,
                    old(self).index as int,
                    Seq::empty(),
                    Seq::empty(),
                    false,
                ) == perr::<(Seq<u8>, Seq<u8>, int)>(e.kind, e.index as int),
            },
    {
        let ghost s = self.input@;
        let ghost i0 = self.index as int;
        let n = self.input.len();
        if self.index >= n {
            self.index = n;
            return Err(self.error(ErrorKind::WrongValue, "Unterminated assignment"));
        }
        let mut ident: Vec<u8> = Vec::new();
        let mut data: Vec<u8> = Vec::new();
        let mut in_value = false;
        loop
            invariant
                s == old(self).input@,
                i0 == old(self).index as int,
                self.input@ == s,
                n == s.len(),
                i0 <= self.index as int <= n,
                sp_assign(s, i0, Seq::empty(), Seq::empty(), false) == sp_assign(
                    s,
                    self.index as int,
                    ident@,
                    data@,
                    in_value,
                ),
            decreases n - self.index,
        {
            if self.index >= n {
                return Err(self.error(ErrorKind::WrongValue, "Unterminated assignment"));
            }
            let at = self.index;
            let b = self.input[at];
            if self.maybe_escaped(at, 61) {
                self.index = at + 1;
                if ident.len() == 0 {
                    return Err(self.error(ErrorKind::EmptyIdent, "Identifier is empty"));
                }
                in_value = true;
            } else if self.maybe_escaped(at, 59) {
                self.index = at + 1;
                if ident.len() == 0 {
                    return Err(
                        self.error(ErrorKind::UnexpectedChar, "Unexpected semicolon before expr start"),
                    );
                } else if !in_value || data.len() == 0 {
                    return Err(self.error(ErrorKind::WrongValue, "Expected value in expr"));
                }
                return Ok((ident, data));
            } else if ws_byte(b) && (!in_value || data.len() == 0) {
                self.index = at + 1;
            } else if in_value {
                data.push(b);
                self.index = at + 1;
            } else {
                ident.push(b);
                self.index = at + 1;
            }
        }
    }
}

impl<'a> Parser<'a> {
    /// Scan a collection's `identifier=` half from the cursor; the cursor
    /// ends just past the `=` and the elements follow.
    fn parse_ident(&mut self) -> (r: Result<Vec<u8>, Error>)
        ensures
            final(self).input@ == old(self).input@,
            match r {
                Ok(ident) => {
                    &&& sp_ident(old(self).input@, old(self).index as int, Seq::empty())
                        == Ok::<_, SpecErr>((ident@, final(self).index as int))
                    &&& old(self).index < final(self).index <= old(self).input@.len()
                },
                Err(e) => sp_ident(old(self).input@, old(self).index as int, Seq::empty())
                    == perr::<(Seq<u8>, int)>(e.kind, e.index as int),
            },
    {
        let ghost s = self.input@;
        let ghost i0 = self.index as int;
        let n = self.input.len();
        if self.index >= n {
            self.index = n;
            return Err(self.error(ErrorKind::WrongValue, "Unterminated assignment"));
        }
        let mut ident: Vec<u8> = Vec::new();
        loop
            invariant
                s == old(self).input@,
                i0 == old(self).index as int,
                self.input@ == s,
                n == s.len(),
                i0 <= self.index as int <= n,
                sp_ident(s, i0, Seq::empty()) == sp_ident(s, self.index as int, ident@),
            decreases n - self.index,
        {
            if self.index >= n {
                return Err(self.error(ErrorKind::WrongValue, "Unterminated assignment"));
            }
            let at = self.index;
            let b = self.input[at];
            if self.maybe_escaped(at, 61) {
                self.index = at + 1;
                if ident.len() == 0 {
                    return Err(self.error(ErrorKind::EmptyIdent, "Identifier is empty"));
                }
                return Ok(ident);
            } else if self.maybe_escaped(at, 59) {
                self.index = at + 1;
                if ident.len() == 0 {
                    return Err(
                        self.error(ErrorKind::UnexpectedChar, "Unexpected semicolon before expr start"),
                    );
                }
                return Err(self.error(ErrorKind::WrongValue, "Expected value in expr"));
            } else if ws_byte(b) {
                self.index = at + 1;
            } else {
                ident.push(b);
                self.index = at + 1;
            }
        }
    }

    /// Parse one type-tagged assignment `tag@identifier=value;` from the
    /// cursor: the tag selects a scalar decoder or, for `l`/`list` and
    /// `m`/`map`, the recursive collection parser, which may nest at most
    /// `depth` further levels. The cursor ends just past the assignment's
    /// closing `;`.
    pub fn parse_assign_start(&mut self, depth: usize) -> (r: Result<Assign, Error>)
        requires
            old(self).index <= old(self).input@.len(),
        ensures
            final(self).input@ == old(self).input@,
            match r {
                Ok(a) => {
                    &&& sp_assign_start(old(self).input@, old(self).index as int, depth as nat)
                        == Ok::<_, SpecErr>((a.0@, a.1@, final(self).index as int))
                    &&& old(self).index < final(self).index <= old(self).input@.len()
                },
                Err(e) => sp_assign_start(old(self).input@, old(self).index as int, depth as nat)
                    == perr::<(Seq<u8>, SpecValue, int)>(e.kind, e.index as int),
            },
        decreases self.input@.len() - self.index, depth, 0int,
    {
        let ghost s = self.input@;
        let ghost i0 = self.index as int;
        let n = self.input.len();
        let mut tag: Vec<u8> = Vec::new();
        loop
            invariant_except_break
                s == old(self).input@,
                i0 == old(self).index as int,
                self.input@ == s,
                n == s.len(),
                i0 <= self.index as int,
                sp_tag(s, i0, Seq::empty()) == sp_tag(s, self.index as int, tag@),
            ensures
                s == old(self).input@,
                i0 == old(self).index as int,
                self.input@ == s,
                n == s.len(),
                self.index as int <= n,
                self.index as int == n || i0 < self.index as int,
                sp_tag(s, i0, Seq::empty()) == (tag@, self.index as int),
            decreases n - self.index,
        {
            if self.index >= n {
                self.index = n;
                break ;
            }
            let at = self.index;
            let b = self.input[at];
            if self.maybe_escaped(at, 64) {
                self.index = at + 1;
                break ;
            } else if ws_byte(b) {
                self.index = at + 1;
            } else {
                tag.push(b);
                self.index = at + 1;
            }
        }
        if tag_is_string(&tag) || tag_is_unsigned(&tag) || tag_is_signed(&tag) || tag_is_float(&tag)
            || tag_is_bool(&tag) {
            match self.parse_assign() {
                Ok((ident, data)) => {
                    let decoded = if tag_is_string(&tag) {
                        self.parse_string(data)
                    } else if tag_is_unsigned(&tag) {
                        self.parse_unsigned(data)
                    } else if tag_is_signed(&tag) {
                        self.parse_signed(data)
                    } else if tag_is_float(&tag) {
                        self.parse_float(data)
                    } else {
                        self.parse_bool(data)
                    };
                    match decoded {
                        Ok(v) => Ok(Assign(ident, v)),
                        Err(e) => Err(e),
                    }
                },
                Err(e) => Err(e),
            }
        } else if tag_is_list(&tag) || tag_is_map(&tag) {
            if depth == 0 {
                return Err(self.error(ErrorKind::WrongValue, "Collections nest too deeply"));
            }
            match self.parse_ident() {
                Ok(ident) => match self.parse_elems(depth - 1) {
                    Ok(pairs) => if tag_is_list(&tag) {
                        let items = assigns_into_values(pairs);
                        Ok(Assign(ident, Value::List(items)))
                    } else {
                        let entries = assigns_into_message(pairs);
                        Ok(Assign(ident, Value::Mapping(entries.0)))
                    },
                    Err(e) => Err(e),
                },
                Err(e) => Err(e),
            }
        } else {
            Err(self.error(ErrorKind::UnexpectedChar, "Invalid data type"))
        }
    }

    /// Parse the elements of a collection from the cursor up to the
    /// unescaped `;` that closes it: each element is a full type-tagged
    /// assignment, returned in order. The cursor ends just past the
    /// closing `;`.
    fn parse_elems(&mut self, depth: usize) -> (r: Result<Vec<Assign>, Error>)
        requires
            old(self).index <= old(self).input@.len(),
        ensures
            final(self).input@ == old(self).input@,
            match r {
                Ok(pairs) => {
                    &&& sp_elems(old(self).input@, old(self).index as int, Seq::empty(), depth as nat)
                        == Ok::<_, SpecErr>((assign_pairs_view(pairs@), final(self).index as int))
                    &&& old(self).index < final(self).index <= old(self).input@.len()
                },
                Err(e) => sp_elems(old(self).input@, old(self).index as int, Seq::empty(), depth as nat)
                    == perr::<(Seq<(Seq<u8>, SpecValue)>, int)>(e.kind, e.index as int),
            },
        decreases self.input@.len() - self.index, depth, 1int,
    {
        let ghost s = self.input@;
        let ghost i0 = self.index as int;
        let n = self.input.len();
        let mut pairs: Vec<Assign> = Vec::new();
        proof {
            assert(assign_pairs_view(pairs@) =~= Seq::<(Seq<u8>, SpecValue)>::empty());
        }
        loop
            invariant
                s == old(self).input@,
                i0 == old(self).index as int,
                self.input@ == s,
                n == s.len(),
                i0 <= self.index as int <= n,
                sp_elems(s, i0, Seq::empty(), depth as nat) == sp_elems(
                    s,
                    self.index as int,
                    assign_pairs_view(pairs@),
                    depth as nat,
                ),
            decreases n - self.index,
        {
            if self.index >= n {
                return Err(Error::new(
                    ErrorKind::WrongValue,
                    "Unterminated collection".to_string(),
                    n,
                ));
            }
            let at = self.index;
            let b = self.input[at];
            if self.maybe_escaped(at, 59) {
                self.index = at + 1;
                return Ok(pairs);
            } else if ws_byte(b) {
                self.index = at + 1;
            } else if tag_start_byte(b) {
                match self.parse_assign_start(depth) {
                    Ok(a) => {
                        proof {
                            assert(assign_pairs_view(pairs@.push(a)) =~= assign_pairs_view(
                                pairs@,
                            ).push((a.0@, value_view(a.1))));
                        }
                        pairs.push(a);
                    },
                    Err(e) => return Err(e),
                }
            } else {
                return Err(self.error(ErrorKind::UnexpectedChar, "Expected expression"));
            }
        }
    }

    /// Parse a whole message from the cursor: whitespace and comments are
    /// skipped, assignments accumulate into the message with a repeated
    /// identifier overwriting the earlier entry, and a null byte or the end
    /// of the input closes the message.
    pub fn parse(&mut self) -> (r: Result<Message, Error>)
        ensures
            final(self).input@ == old(self).input@,
            match r {
                Ok(m) => {
                    &&& sp_msg(old(self).input@, old(self).index as int, Map::empty()) == Ok::<
                        _,
                        SpecErr,
                    >(m@)
                    &&& m.wf()
                },
                Err(e) => sp_msg(old(self).input@, old(self).index as int, Map::empty())
                    == perr::<Map<Seq<u8>, SpecValue>>(e.kind, e.index as int),
            },
    {
        let ghost s = self.input@;
        let ghost i0 = self.index as int;
        let n = self.input.len();
        if self.index > n {
            self.index = n;
        }
        let mut body = Message::new();
        loop
            invariant
                s == old(self).input@,
                i0 == old(self).index as int,
                self.input@ == s,
                n == s.len(),
                self.index as int <= n,
                body.wf(),
                sp_msg(s, i0, Map::empty()) == sp_msg(s, self.index as int, body@),
            decreases n - self.index,
        {
            if self.index >= n {
                return Ok(body);
            }
            let at = self.index;
            let b = self.input[at];
            if b == 0 {
                return Ok(body);
            } else if ws_byte(b) {
                self.index = at + 1;
            } else if b == 35 {
                self.index = at + 1;
                loop
                    invariant_except_break
                        s == old(self).input@,
                        i0 == old(self).index as int,
                        self.input@ == s,
                        n == s.len(),
                        body.wf(),
                        at < n,
                        s[at as int] == 35,
                        at < self.index as int <= n,
                        sp_msg(s, i0, Map::empty()) == sp_msg(s, at as int, body@),
                        sp_comment_end(s, at + 1) == sp_comment_end(s, self.index as int),
                    ensures
                        s == old(self).input@,
                        i0 == old(self).index as int,
                        self.input@ == s,
                        n == s.len(),
                        body.wf(),
                        at < n,
                        s[at as int] == 35,
                        at < self.index as int <= n,
                        sp_msg(s, i0, Map::empty()) == sp_msg(s, at as int, body@),
                        sp_comment_end(s, at + 1) == Ok::<int, SpecErr>(self.index as int),
                    decreases n - self.index,
                {
                    if self.index >= n {
                        return Err(Error::new(
                            ErrorKind::UnexpectedChar,
                            "Unterminated comment".to_string(),
                            n,
                        ));
                    }
                    let p = self.index;
                    if self.maybe_escaped(p, 35) {
                        self.index = p + 1;
                        break ;
                    }
                    self.index = p + 1;
                }
            } else if tag_start_byte(b) {
                match self.parse_assign_start(NEST_LIMIT) {
                    Ok(a) => {
                        let Assign(key, value) = a;
                        body.insert(key, value);
                    },
                    Err(e) => return Err(e),
                }
            } else {
                return Err(self.error(ErrorKind::UnexpectedChar, "Expected expression"));
            }
        }
    }
}

/// Move the parsed elements' values out, in order, for a list literal.
fn assigns_into_values(pairs: Vec<Assign>) -> (r: Vec<Value>)
    ensures
        list_view(r@) == pairs_values(assign_pairs_view(pairs@)),
{
    let ghost orig = pairs@;
    let mut rest = pairs;
    let mut items: Vec<Value> = Vec::new();
    loop
        invariant
            orig == pairs@,
            items@.len() + rest@.len() == orig.len(),
            rest@ == orig.skip(items@.len() as int),
            list_view(items@) == pairs_values(assign_pairs_view(orig.take(items@.len() as int))),
        decreases rest@.len(),
    {
        if rest.len() == 0 {
            proof {
                assert(orig.take(items@.len() as int) =~= orig);
            }
            return items;
        }
        let ghost k = items@.len() as int;
        let a = rest.remove(0);
        proof {
            assert(a == orig[k]);
            assert(rest@ =~= orig.skip(k + 1));
            assert(orig.take(k + 1).drop_last() =~= orig.take(k));
            assert(items@.push(a.1).drop_last() =~= items@);
            assert(assign_pairs_view(orig.take(k + 1)) =~= assign_pairs_view(orig.take(k)).push(
                (a.0@, value_view(a.1)),
            ));
            assert(pairs_values(assign_pairs_view(orig.take(k + 1))) =~= pairs_values(
                assign_pairs_view(orig.take(k)),
            ).push(value_view(a.1)));
        }
        items.push(a.1);
    }
}

/// Fold the parsed elements into a mapping, a later pair with the same key
/// overwriting an earlier one, for a map literal.
fn assigns_into_message(pairs: Vec<Assign>) -> (r: Message)
    ensures
        r@ == pairs_map(assign_pairs_view(pairs@)),
        r.wf(),
{
    let ghost orig = pairs@;
    let mut rest = pairs;
    let mut m = Message::new();
    loop
        invariant
            orig == pairs@,
            m.wf(),
            m@.len() >= 0,
            rest@ == orig.skip((orig.len() - rest@.len()) as int),
            rest@.len() <= orig.len(),
            m@ == pairs_map(assign_pairs_view(orig.take((orig.len() - rest@.len()) as int))),
        decreases rest@.len(),
    {
        let ghost k = orig.len() - rest@.len();
        if rest.len() == 0 {
            proof {
                assert(orig.take(orig.len() as int) =~= orig);
            }
            return m;
        }
        let a = rest.remove(0);
        proof {
            assert(a == orig[k]);
            assert(rest@ =~= orig.skip(k + 1));
            assert(orig.take(k + 1).drop_last() =~= orig.take(k));
            assert(assign_pairs_view(orig.take(k + 1)) =~= assign_pairs_view(orig.take(k)).push(
                (a.0@, value_view(a.1)),
            ));
            assert(assign_pairs_view(orig.take(k)).push(
                (a.0@, value_view(a.1)),
            ).drop_last() =~= assign_pairs_view(orig.take(k)));
        }
        let Assign(key, value) = a;
        m.insert(key, value);
    }
}

/// Whether the token is the `s` / `str` tag.
fn tag_is_string(t: &Vec<u8>) -> (r: bool)
    ensures
        r == is_string_tag(t@),
{
    (t.len() == 1 && t[0] == 115) || (t.len() == 3 && t[0] == 115 && t[1] == 116 && t[2] == 114)
}

/// Whether the token is the `u` / `uint` tag.
fn tag_is_unsigned(t: &Vec<u8>) -> (r: bool)
    ensures
        r == is_unsigned_tag(t@),
{
    (t.len() == 1 && t[0] == 117) || (t.len() == 4 && t[0] == 117 && t[1] == 105 && t[2] == 110
        && t[3] == 116)
}

/// Whether the token is the `i` / `sint` tag.
fn tag_is_signed(t: &Vec<u8>) -> (r: bool)
    ensures
        r == is_signed_tag(t@),
{
    (t.len() == 1 && t[0] == 105) || (t.len() == 4 && t[0] == 115 && t[1] == 105 && t[2] == 110
        && t[3] == 116)
}

/// Whether the token is the `f` / `float` tag.
fn tag_is_float(t: &Vec<u8>) -> (r: bool)
    ensures
        r == is_float_tag(t@),
{
    (t.len() == 1 && t[0] == 102) || (t.len() == 5 && t[0] == 102 && t[1] == 108 && t[2] == 111
        && t[3] == 97 && t[4] == 116)
}

/// Whether the token is the `b` / `bool` tag.
fn tag_is_bool(t: &Vec<u8>) -> (r: bool)
    ensures
        r == is_bool_tag(t@),
{
    (t.len() == 1 && t[0] == 98) || (t.len() == 4 && t[0] == 98 && t[1] == 111 && t[2] == 111
        && t[3] == 108)
}

/// Whether the token is the `l` / `list` tag.
fn tag_is_list(t: &Vec<u8>) -> (r: bool)
    ensures
        r == is_list_tag(t@),
{
    (t.len() == 1 && t[0] == 108) || (t.len() == 4 && t[0] == 108 && t[1] == 105 && t[2] == 115
        && t[3] == 116)
}

/// Whether the token is the `m` / `map` tag.
fn tag_is_map(t: &Vec<u8>) -> (r: bool)
    ensures
        r == is_map_tag(t@),
{
    (t.len() == 1 && t[0] == 109) || (t.len() == 3 && t[0] == 109 && t[1] == 97 && t[2] == 112)
}

/// Whether `b` is skipped between tokens.
pub(crate) fn ws_byte(b: u8) -> (r: bool)
    ensures
        r == is_ws(b),
{
    b == 32 || b == 10 || b == 13 || b == 9
}

/// Whether `b` can start a type tag.
pub(crate) fn tag_start_byte(b: u8) -> (r: bool)
    ensures
        r == is_tag_start(b),
{
    b == 115 || b == 117 || b == 105 || b == 102 || b == 98 || b == 108 || b == 109
}

} // verus!
