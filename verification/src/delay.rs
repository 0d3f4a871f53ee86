//! Human-readable autosuspend delay text: parsing and formatting.
//!
//! Accepted input is `<integer> <unit>` with a unit vocabulary of
//! milliseconds, seconds and minutes, or one of the bare zero spellings
//! `0` and `Immediately`. Formatting mirrors the same vocabulary and
//! always produces text that parses back to the same number of
//! milliseconds.
use vstd::prelude::*;

use crate::text::all_dec_digits;
use crate::text::chars_eq_str;
use crate::text::chars_of_str;
use crate::text::copy_range;
use crate::text::dec_digits_of;
use crate::text::dec_run_len;
use crate::text::dec_value;
use crate::text::is_blank;
use crate::text::is_dec_digit;
use crate::text::is_space;
use crate::text::lemma_dec_digits_of;
use crate::text::lemma_dec_run_len;
use crate::text::lemma_space_run_len;
use crate::text::parse_dec_u64;
use crate::text::scan_dec_run;
use crate::text::scan_space_run;
use crate::text::space_run_len;
use crate::text::trimmed;
use crate::text::u64_to_dec_string;

verus! {

pub open spec fn word_immediately() -> Seq<char> {
    seq!['I', 'm', 'm', 'e', 'd', 'i', 'a', 't', 'e', 'l', 'y']
}

pub open spec fn word_ms() -> Seq<char> {
    seq!['m', 's']
}

pub open spec fn word_millisecond() -> Seq<char> {
    seq!['m', 'i', 'l', 'l', 'i', 's', 'e', 'c', 'o', 'n', 'd']
}

pub open spec fn word_milliseconds() -> Seq<char> {
    seq!['m', 'i', 'l', 'l', 'i', 's', 'e', 'c', 'o', 'n', 'd', 's']
}

pub open spec fn word_second() -> Seq<char> {
    seq!['s', 'e', 'c', 'o', 'n', 'd']
}

pub open spec fn word_seconds() -> Seq<char> {
    seq!['s', 'e', 'c', 'o', 'n', 'd', 's']
}

pub open spec fn word_minute() -> Seq<char> {
    seq!['m', 'i', 'n', 'u', 't', 'e']
}

pub open spec fn word_minutes() -> Seq<char> {
    seq!['m', 'i', 'n', 'u', 't', 'e', 's']
}

/// Milliseconds per unit word, or `None` for an unknown unit.
pub open spec fn unit_multiplier(u: Seq<char>) -> Option<u64> {
    if u == word_ms() || u == word_millisecond() || u == word_milliseconds() {
        Some(1u64)
    } else if u == word_second() || u == word_seconds() {
        Some(1000u64)
    } else if u == word_minute() || u == word_minutes() {
        Some(60000u64)
    } else {
        None
    }
}

/// The delay in milliseconds that the text denotes, or `None` if the text
/// is not a valid delay. The text is trimmed first; it is valid when it is
/// a bare zero spelling, or an integer, then at least one space, then a
/// unit word, with the product fitting in `u64`.
pub open spec fn spec_parse_delay(s: Seq<char>) -> Option<u64> {
    let t = trimmed(s);
    if t == word_immediately() || t == seq!['0'] {
        Some(0u64)
    } else {
        let d = dec_run_len(t, 0);
        let sp = space_run_len(t, d);
        if d == 0 || sp == 0 {
            None
        } else {
            let num = t.subrange(0, d);
            let unit = t.subrange(d + sp, t.len() as int);
            match unit_multiplier(unit) {
                Some(mult) => if dec_value(num) * mult <= u64::MAX {
                    Some((dec_value(num) * mult) as u64)
                } else {
                    None
                },
                None => None,
            }
        }
    }
}

/// The canonical text for a delay: whole minutes as minutes, else whole
/// seconds as seconds, else milliseconds, with singular and plural forms.
pub open spec fn spec_format_delay(ms: u64) -> Seq<char> {
    if ms != 0 && ms % 60000 == 0 {
        if ms == 60000 {
            dec_digits_of(1) + seq![' '] + word_minute()
        } else {
            dec_digits_of((ms / 60000) as nat) + seq![' '] + word_minutes()
        }
    } else if ms % 1000 == 0 {
        if ms == 1000 {
            dec_digits_of(1) + seq![' '] + word_second()
        } else {
            dec_digits_of((ms / 1000) as nat) + seq![' '] + word_seconds()
        }
    } else {
        dec_digits_of(ms as nat) + seq![' '] + word_ms()
    }
}

/// A rejected delay text, kept for reporting against the offending input.
#[derive(Debug)]
pub struct DelayParseFault {
    pub input: String,
}

/// The validation message recorded against a rejected delay text.
pub open spec fn delay_err_msg(input: Seq<char>) -> Seq<char> {
    "not a valid delay: "@ + input
}

impl DelayParseFault {
    /// The validation message shown for this fault.
    pub fn message(&self) -> (r: String)
        ensures
            r@ == delay_err_msg(self.input@),
    {
        let mut m = String::new();
        m.append("not a valid delay: ");
        m.append(self.input.as_str());
        m
    }
}

fn unit_multiplier_exec(u: &Vec<char>) -> (r: Option<u64>)
    ensures
        r == unit_multiplier(u@),
{
    proof {
        reveal_strlit("ms");
        reveal_strlit("millisecond");
        reveal_strlit("milliseconds");
        reveal_strlit("second");
        reveal_strlit("seconds");
        reveal_strlit("minute");
        reveal_strlit("minutes");
        assert("ms"@ =~= word_ms());
        assert("millisecond"@ =~= word_millisecond());
        assert("milliseconds"@ =~= word_milliseconds());
        assert("second"@ =~= word_second());
        assert("seconds"@ =~= word_seconds());
        assert("minute"@ =~= word_minute());
        assert("minutes"@ =~= word_minutes());
    }
    if chars_eq_str(u, "ms") || chars_eq_str(u, "millisecond") || chars_eq_str(
        u,
        "milliseconds",
    ) {
        Some(1)
    } else if chars_eq_str(u, "second") || chars_eq_str(u, "seconds") {
        Some(1000)
    } else if chars_eq_str(u, "minute") || chars_eq_str(u, "minutes") {
        Some(60000)
    } else {
        None
    }
}

/// Parses a human-readable delay into milliseconds, per `spec_parse_delay`.
pub fn parse_delay(text: &str) -> (r: Result<u64, DelayParseFault>)
    ensures
        match r {
            Ok(ms) => spec_parse_delay(text@) == Some(ms),
            Err(f) => spec_parse_delay(text@) is None && f.input@ == text@,
        },
{
    let chars = chars_of_str(text);
    let t = crate::text::trim_chars(&chars);
    proof {
        reveal_strlit("Immediately");
        reveal_strlit("0");
        assert("Immediately"@ =~= word_immediately());
        assert("0"@ =~= seq!['0']);
    }
    if chars_eq_str(&t, "Immediately") || chars_eq_str(&t, "0") {
        return Ok(0);
    }
    let d = scan_dec_run(&t, 0);
    let sp_end = scan_space_run(&t, d);
    let ghost sp = sp_end - d;
    if d == 0 || sp_end == d {
        return Err(DelayParseFault { input: text.to_owned() });
    }
    let unit = copy_range(&t, sp_end, t.len());
    assert(unit@ =~= t@.subrange(d as int + sp, t@.len() as int));
    match unit_multiplier_exec(&unit) {
        None => Err(DelayParseFault { input: text.to_owned() }),
        Some(mult) => {
            match parse_dec_u64(&t, 0, d) {
                None => {
                    proof {
                        let num = t@.subrange(0, d as int);
                        assert(all_dec_digits(num)) by {
                            crate::text::lemma_dec_run_len_digits(t@, 0);
                            assert(forall|j: int|
                                0 <= j < d ==> is_dec_digit(#[trigger] t@[j]));
                            assert(forall|j: int|
                                0 <= j < num.len() ==> num[j] == #[trigger] t@[j]);
                        }
                        assert(dec_value(num) > u64::MAX);
                        assert(mult >= 1);
                        assert(dec_value(num) * mult >= dec_value(num) * 1) by (nonlinear_arith)
                            requires
                                mult >= 1,
                        ;
                    }
                    Err(DelayParseFault { input: text.to_owned() })
                },
                Some(v) => {
                    if mult != 0 && v > u64::MAX / mult {
                        proof {
                            let num = t@.subrange(0, d as int);
                            assert(dec_value(num) * mult > u64::MAX) by (nonlinear_arith)
                                requires
                                    dec_value(num) == v,
                                    v > u64::MAX / mult,
                                    mult == 1 || mult == 1000 || mult == 60000,
                            ;
                        }
                        Err(DelayParseFault { input: text.to_owned() })
                    } else {
                        assert(v * mult <= u64::MAX) by (nonlinear_arith)
                            requires
                                v <= u64::MAX / mult,
                                mult == 1 || mult == 1000 || mult == 60000,
                        ;
                        Ok(v * mult)
                    }
                },
            }
        },
    }
}

/// Formats a delay in milliseconds as text, per `spec_format_delay`.
pub fn format_delay(ms: u64) -> (r: String)
    ensures
        r@ == spec_format_delay(ms),
{
    proof {
        reveal_strlit(" minute");
        reveal_strlit(" minutes");
        reveal_strlit(" second");
        reveal_strlit(" seconds");
        reveal_strlit(" ms");
        assert(" minute"@ =~= seq![' '] + word_minute());
        assert(" minutes"@ =~= seq![' '] + word_minutes());
        assert(" second"@ =~= seq![' '] + word_second());
        assert(" seconds"@ =~= seq![' '] + word_seconds());
        assert(" ms"@ =~= seq![' '] + word_ms());
    }
    if ms != 0 && ms % 60000 == 0 {
        let mut s = u64_to_dec_string(ms / 60000);
        if ms == 60000 {
            s.append(" minute");
        } else {
            s.append(" minutes");
        }
        assert(s@ =~= spec_format_delay(ms));
        s
    } else if ms % 1000 == 0 {
        let mut s = u64_to_dec_string(ms / 1000);
        if ms == 1000 {
            s.append(" second");
        } else {
            s.append(" seconds");
        }
        assert(s@ =~= spec_format_delay(ms));
        s
    } else {
        let mut s = u64_to_dec_string(ms);
        s.append(" ms");
        assert(s@ =~= spec_format_delay(ms));
        s
    }
}

/// A formatted delay always parses back to the same number of milliseconds.
pub proof fn lemma_delay_round_trip(ms: u64)
    ensures
        spec_parse_delay(spec_format_delay(ms)) == Some(ms),
{
    let s = spec_format_delay(ms);
    let n: nat = if ms != 0 && ms % 60000 == 0 {
        (ms / 60000) as nat
    } else if ms % 1000 == 0 {
        (ms / 1000) as nat
    } else {
        ms as nat
    };
    let mult: u64 = if ms != 0 && ms % 60000 == 0 {
        60000
    } else if ms % 1000 == 0 {
        1000
    } else {
        1
    };
    let digits = dec_digits_of(n);
    let unit = s.subrange(digits.len() as int + 1, s.len() as int);
    lemma_dec_digits_of(n);
    assert(s[0] == digits[0]);
    assert(!is_blank(s[0]));
    assert(!is_blank(s.last()));
    assert(trimmed(s) == s);
    assert(s != word_immediately()) by {
        assert(is_dec_digit(s[0]));
        assert(!is_dec_digit(word_immediately()[0]));
    }
    assert(s != seq!['0']) by {
        assert(s.len() > digits.len() + 1);
    }
    assert(forall|j: int| 0 <= j < digits.len() ==> is_dec_digit(#[trigger] s[j]));
    assert(s[digits.len() as int] == ' ');
    assert(!is_dec_digit(' '));
    lemma_dec_run_len(s, 0, digits.len() as int);
    assert(dec_run_len(s, 0) == digits.len());
    assert(unit[0] == s[digits.len() as int + 1]);
    assert(!is_space(unit[0]));
    lemma_space_run_len(s, digits.len() as int, 1);
    assert(space_run_len(s, digits.len() as int) == 1);
    assert(s.subrange(0, digits.len() as int) =~= digits);
    assert(unit_multiplier(unit) == Some(mult)) by {
        if ms != 0 && ms % 60000 == 0 {
            if ms == 60000 {
                assert(unit =~= word_minute());
                lemma_distinct_units();
            } else {
                assert(unit =~= word_minutes());
                lemma_distinct_units();
            }
        } else if ms % 1000 == 0 {
            if ms == 1000 {
                assert(unit =~= word_second());
                lemma_distinct_units();
            } else {
                assert(unit =~= word_seconds());
                lemma_distinct_units();
            }
        } else {
            assert(unit =~= word_ms());
        }
    }
    assert(dec_value(digits) == n);
    assert(n * mult == ms) by {
        if ms != 0 && ms % 60000 == 0 {
            assert(ms / 60000 * 60000 + ms % 60000 == ms) by (nonlinear_arith);
        } else if ms % 1000 == 0 {
            assert(ms / 1000 * 1000 + ms % 1000 == ms) by (nonlinear_arith);
        }
    }
}

/// The unit words are pairwise distinct where their lengths agree.
proof fn lemma_distinct_units()
    ensures
        word_minute() != word_second(),
        word_minutes() != word_seconds(),
        word_minute() != word_ms(),
        word_minutes() != word_ms(),
        word_second() != word_ms(),
        word_seconds() != word_ms(),
        word_minute() != word_millisecond(),
        word_minutes() != word_milliseconds(),
        word_second() != word_millisecond(),
        word_seconds() != word_milliseconds(),
{
    assert(word_minute()[0] != word_second()[0]);
    assert(word_minutes()[0] != word_seconds()[0]);
    assert(word_minute().len() != word_ms().len());
    assert(word_minutes().len() != word_ms().len());
    assert(word_second().len() != word_ms().len());
    assert(word_seconds().len() != word_ms().len());
    assert(word_minute().len() != word_millisecond().len());
    assert(word_minutes().len() != word_milliseconds().len());
    assert(word_second().len() != word_millisecond().len());
    assert(word_seconds().len() != word_milliseconds().len());
}

} // verus!
