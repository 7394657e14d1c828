//! The literal decoders: pure functions from a raw value byte run, already
//! delimited by the assignment scanner, to a typed scalar. Each one is proved
//! to return exactly what the corresponding grammar decoder denotes; the
//! error is reported at the cursor's position.

use vstd::prelude::*;
use vstd::utf8::decode_utf8;
use vstd::utf8::valid_utf8;

use crate::error::Error;
use crate::error::ErrorKind;
use crate::grammar::all_digits;
use crate::grammar::dash_run;
use crate::grammar::dec_bool;
use crate::grammar::dec_float;
use crate::grammar::dec_signed;
use crate::grammar::dec_string;
use crate::grammar::dec_unsigned;
use crate::grammar::digits_val;
use crate::grammar::float_scan;
use crate::grammar::is_digit;
use crate::grammar::is_false_lit;
use crate::grammar::is_true_lit;
use crate::parser::Parser;
use crate::value::Decimal;
use crate::value::Value;

verus! {

/// A digit run reads as a non-negative number.
proof fn lemma_digits_val_nonneg(s: Seq<u8>)
    requires
        all_digits(s),
    ensures
        digits_val(s) >= 0,
    decreases s.len(),
{
    if s.len() > 0 {
        assert(all_digits(s.drop_last()));
        lemma_digits_val_nonneg(s.drop_last());
    }
}

/// Reading more digits can only grow the value: a prefix never exceeds the
/// whole run.
proof fn lemma_digits_val_grows(s: Seq<u8>, k: int)
    requires
        all_digits(s),
        0 <= k <= s.len(),
    ensures
        digits_val(s.take(k)) <= digits_val(s),
    decreases s.len(),
{
    if k == s.len() {
        assert(s.take(k) =~= s);
    } else {
        assert(all_digits(s.drop_last()));
        assert(s.take(k) =~= s.drop_last().take(k));
        lemma_digits_val_grows(s.drop_last(), k);
        lemma_digits_val_nonneg(s.drop_last());
    }
}

/// Once the mantissa has outgrown the machine word, the float scan can only
/// fail: later digits never shrink it.
proof fn lemma_float_scan_overflow(
    s: Seq<u8>,
    i: int,
    seen_digit: bool,
    in_dec: bool,
    neg: bool,
    m: int,
    scale: int,
)
    requires
        m > u64::MAX as int,
    ensures
        float_scan(s, i, seen_digit, in_dec, neg, m, scale) is None,
    decreases s.len() - i,
{
    if i < s.len() {
        if s[i] == 45 {
            if !seen_digit {
                lemma_float_scan_overflow(s, i + 1, seen_digit, in_dec, !neg, m, scale);
            }
        } else if s[i] == 46 {
            if !in_dec {
                lemma_float_scan_overflow(s, i + 1, seen_digit, true, neg, m, scale);
            }
        } else if is_digit(s[i]) {
            lemma_float_scan_overflow(
                s,
                i + 1,
                true,
                in_dec,
                neg,
                m * 10 + s[i] - 48,
                if in_dec {
                    scale + 1
                } else {
                    scale
                },
            );
        }
    }
}

/// A leading all-dash prefix that ends at the first non-dash byte is exactly
/// the dash run.
proof fn lemma_dash_run_char(s: Seq<u8>, k: int)
    requires
        0 <= k <= s.len(),
        forall|t: int| 0 <= t < k ==> s[t] == 45,
        k == s.len() || s[k] != 45,
    ensures
        dash_run(s) == k,
    decreases k,
{
    if k == 0 {
    } else {
        assert(s[0] == 45);
        assert(forall|t: int| 0 <= t < k - 1 ==> s.skip(1)[t] == 45);
        assert(k - 1 == s.skip(1).len() || s.skip(1)[k - 1] != 45);
        lemma_dash_run_char(s.skip(1), k - 1);
    }
}

/// Relies on `String::from_utf8` from std: it returns `Ok` exactly when the
/// bytes are valid UTF-8, and the string then holds their decoding.
#[verifier::external_body]
fn utf8_to_string(bytes: Vec<u8>) -> (r: Option<String>)
    ensures
        match r {
            Some(s) => valid_utf8(bytes@) && s@ == decode_utf8(bytes@),
            None => !valid_utf8(bytes@),
        },
{
    String::from_utf8(bytes).ok()
}

impl<'a> Parser<'a> {
    /// Decode the raw bytes as UTF-8 text; invalid UTF-8 is a `WrongValue`
    /// failure at the cursor.
    pub fn to_utf8(&self, input: Vec<u8>) -> (r: Result<String, Error>)
        ensures
            match r {
                Ok(s) => valid_utf8(input@) && s@ == decode_utf8(input@),
                Err(e) => {
                    &&& !valid_utf8(input@)
                    &&& e.kind == ErrorKind::WrongValue
                    &&& e.index == self.index
                },
            },
    {
        match utf8_to_string(input) {
            Some(s) => Ok(s),
            None => Err(self.error(ErrorKind::WrongValue, "Invalid utf8")),
        }
    }

    /// Decode a string literal: the bytes must be valid UTF-8.
    pub fn parse_string(&self, bytes: Vec<u8>) -> (r: Result<Value, Error>)
        ensures
            match r {
                Ok(v) => dec_string(bytes@) == Some(v@),
                Err(e) => {
                    &&& dec_string(bytes@) is None
                    &&& e.kind == ErrorKind::WrongValue
                    &&& e.index == self.index
                },
            },
    {
        match self.to_utf8(bytes) {
            Ok(s) => Ok(Value::String(s)),
            Err(e) => Err(e),
        }
    }

    /// Decode an unsigned literal: digits only, read positionally in base
    /// 10; a non-digit byte or a value beyond the machine word is a
    /// `WrongValue` failure at the cursor.
    pub fn parse_unsigned(&self, bytes: Vec<u8>) -> (r: Result<Value, Error>)
        ensures
            match r {
                Ok(v) => dec_unsigned(bytes@) == Some(v@),
                Err(e) => {
                    &&& dec_unsigned(bytes@) is None
                    &&& e.kind == ErrorKind::WrongValue
                    &&& e.index == self.index
                },
            },
    {
        let n = bytes.len();
        let mut total: usize = 0;
        let mut j: usize = 0;
        while j < n
            invariant
                n == bytes@.len(),
                0 <= j <= n,
                all_digits(bytes@.take(j as int)),
                total as int == digits_val(bytes@.take(j as int)),
            decreases n - j,
        {
            let b = bytes[j];
            if b < 48 || b > 57 {
                return Err(self.error(ErrorKind::WrongValue, "Invalid unsigned value"));
            }
            let d = (b - 48) as usize;
            let wide: u128 = total as u128 * 10 + d as u128;
            proof {
                assert(bytes@.take(j + 1).drop_last() =~= bytes@.take(j as int));
            }
            if wide > usize::MAX as u128 {
                proof {
                    if all_digits(bytes@) {
                        lemma_digits_val_grows(bytes@, j + 1);
                    }
                }
                return Err(self.error(ErrorKind::WrongValue, "Invalid unsigned value"));
            }
            total = wide as usize;
            j = j + 1;
        }
        proof {
            assert(bytes@.take(n as int) =~= bytes@);
        }
        Ok(Value::Unsigned(total))
    }

    /// Decode a signed literal: a leading run of `-` bytes toggles the sign
    /// once per dash, then digits; anything else, or a value outside the
    /// machine word, is a `WrongValue` failure at the cursor.
    pub fn parse_signed(&self, bytes: Vec<u8>) -> (r: Result<Value, Error>)
        ensures
            match r {
                Ok(v) => dec_signed(bytes@) == Some(v@),
                Err(e) => {
                    &&& dec_signed(bytes@) is None
                    &&& e.kind == ErrorKind::WrongValue
                    &&& e.index == self.index
                },
            },
    {
        let n = bytes.len();
        let mut k: usize = 0;
        let mut neg = false;
        loop
            invariant_except_break
                n == bytes@.len(),
                0 <= k <= n,
                forall|t: int| 0 <= t < k ==> bytes@[t] == 45,
                neg == (k % 2 == 1),
            ensures
                0 <= k <= n,
                n == bytes@.len(),
                forall|t: int| 0 <= t < k ==> bytes@[t] == 45,
                neg == (k % 2 == 1),
                k == n || bytes@[k as int] != 45,
            decreases n - k,
        {
            if k >= n {
                break ;
            }
            if bytes[k] != 45 {
                break ;
            }
            neg = !neg;
            k = k + 1;
        }
        proof {
            lemma_dash_run_char(bytes@, k as int);
        }
        let ghost rest = bytes@.skip(k as int);
        let mut total: u128 = 0;
        let ghost cap = isize::MAX as int + 1;
        let mut j: usize = k;
        while j < n
            invariant
                n == bytes@.len(),
                k <= j <= n,
                dash_run(bytes@) == k as int,
                neg == (k % 2 == 1),
                rest == bytes@.skip(k as int),
                all_digits(rest.take(j - k)),
                total as int == digits_val(rest.take(j - k)),
                total as int <= cap,
                cap == isize::MAX as int + 1,
            decreases n - j,
        {
            let b = bytes[j];
            if b < 48 || b > 57 {
                assert(rest[j - k] == bytes@[j as int]);
                return Err(self.error(ErrorKind::WrongValue, "Invalid signed value"));
            }
            let d = (b - 48) as u128;
            let wide: u128 = total * 10 + d;
            proof {
                assert(rest[j - k] == bytes@[j as int]);
                assert(rest.take(j - k + 1).drop_last() =~= rest.take(j - k));
            }
            if wide > isize::MAX as u128 + 1 {
                proof {
                    if all_digits(rest) {
                        lemma_digits_val_grows(rest, j - k + 1);
                    }
                }
                return Err(self.error(ErrorKind::WrongValue, "Invalid signed value"));
            }
            total = wide;
            j = j + 1;
        }
        proof {
            assert(rest.take(n - k) =~= rest);
        }
        if neg {
            if total == isize::MAX as u128 + 1 {
                Ok(Value::Signed(isize::MIN))
            } else {
                Ok(Value::Signed(-(total as isize)))
            }
        } else {
            if total == isize::MAX as u128 + 1 {
                return Err(self.error(ErrorKind::WrongValue, "Invalid signed value"));
            }
            Ok(Value::Signed(total as isize))
        }
    }

    /// Decode a float literal into an exact [`Decimal`]: sign dashes before
    /// any digit, one optional point, digits elsewhere; anything else, or a
    /// mantissa beyond the machine word, is a `WrongValue` failure at the
    /// cursor.
    pub fn parse_float(&self, bytes: Vec<u8>) -> (r: Result<Value, Error>)
        ensures
            match r {
                Ok(v) => dec_float(bytes@) == Some(v@),
                Err(e) => {
                    &&& dec_float(bytes@) is None
                    &&& e.kind == ErrorKind::WrongValue
                    &&& e.index == self.index
                },
            },
    {
        let n = bytes.len();
        let mut m: u64 = 0;
        let mut scale: usize = 0;
        let mut seen_digit = false;
        let mut in_dec = false;
        let mut neg = false;
        let mut j: usize = 0;
        while j < n
            invariant
                n == bytes@.len(),
                0 <= j <= n,
                scale <= j,
                float_scan(bytes@, 0, false, false, false, 0, 0) == float_scan(
                    bytes@,
                    j as int,
                    seen_digit,
                    in_dec,
                    neg,
                    m as int,
                    scale as int,
                ),
            decreases n - j,
        {
            let b = bytes[j];
            if b == 45 {
                if seen_digit {
                    return Err(self.error(ErrorKind::WrongValue, "Invalid float value"));
                }
                neg = !neg;
            } else if b == 46 {
                if in_dec {
                    return Err(self.error(ErrorKind::WrongValue, "Invalid float value"));
                }
                in_dec = true;
            } else if 48 <= b && b <= 57 {
                let d = (b - 48) as u128;
                let wide: u128 = m as u128 * 10 + d;
                if wide > u64::MAX as u128 {
                    proof {
                        lemma_float_scan_overflow(
                            bytes@,
                            j + 1,
                            true,
                            in_dec,
                            neg,
                            m as int * 10 + b - 48,
                            if in_dec {
                                scale as int + 1
                            } else {
                                scale as int
                            },
                        );
                    }
                    return Err(self.error(ErrorKind::WrongValue, "Invalid float value"));
                }
                m = wide as u64;
                seen_digit = true;
                if in_dec {
                    scale = scale + 1;
                }
            } else {
                return Err(self.error(ErrorKind::WrongValue, "Invalid float value"));
            }
            j = j + 1;
        }
        Ok(Value::Float(Decimal { neg, mantissa: m, scale }))
    }

    /// Decode a bool literal: exactly `true`, `t`, `false` or `f`; anything
    /// else is a `WrongValue` failure at the cursor.
    pub fn parse_bool(&self, bytes: Vec<u8>) -> (r: Result<Value, Error>)
        ensures
            match r {
                Ok(v) => dec_bool(bytes@) == Some(v@),
                Err(e) => {
                    &&& dec_bool(bytes@) is None
                    &&& e.kind == ErrorKind::WrongValue
                    &&& e.index == self.index
                },
            },
    {
        let n = bytes.len();
        if n == 1 && bytes[0] == 116 {
            Ok(Value::Bool(true))
        } else if n == 1 && bytes[0] == 102 {
            Ok(Value::Bool(false))
        } else if n == 4 && bytes[0] == 116 && bytes[1] == 114 && bytes[2] == 117 && bytes[3]
            == 101 {
            assert(is_true_lit(bytes@));
            Ok(Value::Bool(true))
        } else if n == 5 && bytes[0] == 102 && bytes[1] == 97 && bytes[2] == 108 && bytes[3] == 115
            && bytes[4] == 101 {
            assert(is_false_lit(bytes@));
            Ok(Value::Bool(false))
        } else {
            Err(self.error(ErrorKind::WrongValue, "Invalid bool value"))
        }
    }
}

} // verus!
