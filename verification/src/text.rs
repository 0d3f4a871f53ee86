//! Character-level text utilities shared by the registry parser, the
//! attribute-file readers and the delay formatter: hexadecimal and decimal
//! numerals and whitespace trimming, specified over sequences of characters.
use vstd::prelude::*;

verus! {

/// Space or horizontal tab: the separator between an id and a name.
pub open spec fn is_space(c: char) -> bool {
    c == ' ' || c == '\t'
}

/// A line terminator character.
pub open spec fn is_line_break(c: char) -> bool {
    c == '\n' || c == '\r'
}

/// Whitespace that trimming removes around attribute-file values and names.
pub open spec fn is_blank(c: char) -> bool {
    c == ' ' || c == '\t' || c == '\n' || c == '\r'
}

pub open spec fn is_dec_digit(c: char) -> bool {
    48 <= c as u32 <= 57
}

pub open spec fn dec_digit_val(c: char) -> nat {
    (c as u32 - 48) as nat
}

pub open spec fn is_hex_digit(c: char) -> bool {
    ||| 48 <= c as u32 <= 57
    ||| 97 <= c as u32 <= 102
    ||| 65 <= c as u32 <= 70
}

pub open spec fn hex_digit_val(c: char) -> nat {
    if 48 <= c as u32 <= 57 {
        (c as u32 - 48) as nat
    } else if 97 <= c as u32 <= 102 {
        (c as u32 - 87) as nat
    } else {
        (c as u32 - 55) as nat
    }
}

pub open spec fn all_dec_digits(s: Seq<char>) -> bool {
    forall|i: int| 0 <= i < s.len() ==> is_dec_digit(#[trigger] s[i])
}

pub open spec fn all_hex_digits(s: Seq<char>) -> bool {
    forall|i: int| 0 <= i < s.len() ==> is_hex_digit(#[trigger] s[i])
}

/// The numeric value of a decimal numeral, most significant digit first.
pub open spec fn dec_value(s: Seq<char>) -> nat
    decreases s.len(),
{
    if s.len() == 0 {
        0
    } else {
        dec_value(s.drop_last()) * 10 + dec_digit_val(s.last())
    }
}

/// The numeric value of a hexadecimal numeral, most significant digit first.
pub open spec fn hex_value(s: Seq<char>) -> nat
    decreases s.len(),
{
    if s.len() == 0 {
        0
    } else {
        hex_value(s.drop_last()) * 16 + hex_digit_val(s.last())
    }
}

/// The decimal numeral of `n`, without leading zeros (`0` for zero).
pub open spec fn dec_digits_of(n: nat) -> Seq<char>
    decreases n,
{
    if n < 10 {
        seq![((48 + n) as u8) as char]
    } else {
        dec_digits_of(n / 10).push(((48 + n % 10) as u8) as char)
    }
}

/// Length of the maximal run of decimal digits starting at `from`.
pub open spec fn dec_run_len(s: Seq<char>, from: int) -> int
    decreases s.len() - from,
{
    if from < 0 || from >= s.len() || !is_dec_digit(s[from]) {
        0
    } else {
        1 + dec_run_len(s, from + 1)
    }
}

/// Length of the maximal run of hexadecimal digits starting at `from`.
pub open spec fn hex_run_len(s: Seq<char>, from: int) -> int
    decreases s.len() - from,
{
    if from < 0 || from >= s.len() || !is_hex_digit(s[from]) {
        0
    } else {
        1 + hex_run_len(s, from + 1)
    }
}

/// Length of the maximal run of space characters starting at `from`.
pub open spec fn space_run_len(s: Seq<char>, from: int) -> int
    decreases s.len() - from,
{
    if from < 0 || from >= s.len() || !is_space(s[from]) {
        0
    } else {
        1 + space_run_len(s, from + 1)
    }
}

pub proof fn lemma_dec_run_len(s: Seq<char>, from: int, k: int)
    requires
        0 <= from,
        0 <= k,
        from + k <= s.len(),
        forall|j: int| from <= j < from + k ==> is_dec_digit(#[trigger] s[j]),
        from + k == s.len() || !is_dec_digit(s[from + k]),
    ensures
        dec_run_len(s, from) == k,
    decreases k,
{
    if k > 0 {
        lemma_dec_run_len(s, from + 1, k - 1);
    }
}

/// Every character inside the maximal decimal run is a decimal digit.
pub proof fn lemma_dec_run_len_digits(s: Seq<char>, from: int)
    requires
        0 <= from <= s.len(),
    ensures
        from + dec_run_len(s, from) <= s.len(),
        forall|j: int|
            from <= j < from + dec_run_len(s, from) ==> is_dec_digit(#[trigger] s[j]),
    decreases s.len() - from,
{
    if from < s.len() && is_dec_digit(s[from]) {
        lemma_dec_run_len_digits(s, from + 1);
    }
}

/// Every character inside the maximal hexadecimal run is a hex digit.
pub proof fn lemma_hex_run_len_digits(s: Seq<char>, from: int)
    requires
        0 <= from <= s.len(),
    ensures
        from + hex_run_len(s, from) <= s.len(),
        forall|j: int|
            from <= j < from + hex_run_len(s, from) ==> is_hex_digit(#[trigger] s[j]),
        from + hex_run_len(s, from) == s.len() || !is_hex_digit(
            s[from + hex_run_len(s, from)],
        ),
    decreases s.len() - from,
{
    if from < s.len() && is_hex_digit(s[from]) {
        lemma_hex_run_len_digits(s, from + 1);
    }
}

/// An upper-case hex digit mapped to its lower-case form; other characters
/// are unchanged.
pub open spec fn to_lower_hex(c: char) -> char {
    if 65 <= c as u32 <= 70 {
        ((c as u32 + 32) as u8) as char
    } else {
        c
    }
}

pub proof fn lemma_hex_digit_case(c: char)
    ensures
        is_hex_digit(to_lower_hex(c)) == is_hex_digit(c),
        is_hex_digit(c) ==> hex_digit_val(to_lower_hex(c)) == hex_digit_val(c),
{
}

/// Hexadecimal numerals are case-insensitive: lower-casing every digit
/// leaves the denoted value unchanged.
pub proof fn lemma_hex_value_case_insensitive(s: Seq<char>)
    ensures
        hex_value(s.map_values(|c: char| to_lower_hex(c))) == hex_value(s),
    decreases s.len(),
{
    let t = s.map_values(|c: char| to_lower_hex(c));
    if s.len() > 0 {
        lemma_hex_value_case_insensitive(s.drop_last());
        assert(t.drop_last() =~= s.drop_last().map_values(|c: char| to_lower_hex(c)));
        assert(t.last() == to_lower_hex(s.last()));
        lemma_hex_digit_case(s.last());
        if !is_hex_digit(s.last()) {
            assert(hex_digit_val(to_lower_hex(s.last())) == hex_digit_val(s.last()));
        }
    } else {
        assert(t =~= Seq::<char>::empty());
    }
}

/// A leading zero does not change the value of a hexadecimal numeral.
pub proof fn lemma_hex_leading_zero(s: Seq<char>)
    ensures
        hex_value(seq!['0'] + s) == hex_value(s),
    decreases s.len(),
{
    let t = seq!['0'] + s;
    if s.len() == 0 {
        assert(t =~= seq!['0']);
        assert(t.drop_last() =~= Seq::<char>::empty());
        assert(hex_value(t) == hex_value(t.drop_last()) * 16 + hex_digit_val('0'));
    } else {
        lemma_hex_leading_zero(s.drop_last());
        assert(t.drop_last() =~= seq!['0'] + s.drop_last());
        assert(t.last() == s.last());
    }
}

pub proof fn lemma_space_run_len(s: Seq<char>, from: int, k: int)
    requires
        0 <= from,
        0 <= k,
        from + k <= s.len(),
        forall|j: int| from <= j < from + k ==> is_space(#[trigger] s[j]),
        from + k == s.len() || !is_space(s[from + k]),
    ensures
        space_run_len(s, from) == k,
    decreases k,
{
    if k > 0 {
        lemma_space_run_len(s, from + 1, k - 1);
    }
}

/// Index just past the maximal run of decimal digits starting at `from`.
pub fn scan_dec_run(s: &Vec<char>, from: usize) -> (e: usize)
    requires
        from <= s@.len(),
    ensures
        from <= e <= s@.len(),
        e - from == dec_run_len(s@, from as int),
    decreases s@.len() - from,
{
    if from < s.len() && exec_is_dec_digit(s[from]) {
        scan_dec_run(s, from + 1)
    } else {
        from
    }
}

/// Index just past the maximal run of hexadecimal digits starting at `from`.
pub fn scan_hex_run(s: &Vec<char>, from: usize) -> (e: usize)
    requires
        from <= s@.len(),
    ensures
        from <= e <= s@.len(),
        e - from == hex_run_len(s@, from as int),
    decreases s@.len() - from,
{
    if from < s.len() && exec_is_hex_digit(s[from]) {
        scan_hex_run(s, from + 1)
    } else {
        from
    }
}

/// Index just past the maximal run of space characters starting at `from`.
pub fn scan_space_run(s: &Vec<char>, from: usize) -> (e: usize)
    requires
        from <= s@.len(),
    ensures
        from <= e <= s@.len(),
        e - from == space_run_len(s@, from as int),
    decreases s@.len() - from,
{
    if from < s.len() && exec_is_space(s[from]) {
        scan_space_run(s, from + 1)
    } else {
        from
    }
}

/// Copies `s[start..end]` into a fresh vector.
pub fn copy_range(s: &Vec<char>, start: usize, end: usize) -> (r: Vec<char>)
    requires
        start <= end <= s@.len(),
    ensures
        r@ == s@.subrange(start as int, end as int),
{
    let mut out: Vec<char> = Vec::new();
    let mut i: usize = start;
    while i < end
        invariant
            start <= i <= end <= s@.len(),
            out@ == s@.subrange(start as int, i as int),
        decreases end - i,
    {
        out.push(s[i]);
        assert(out@ =~= s@.subrange(start as int, i + 1 as int));
        i = i + 1;
    }
    out
}

/// Whether the vector holds exactly the characters of `t`.
pub fn chars_eq_str(s: &Vec<char>, t: &str) -> (r: bool)
    ensures
        r == (s@ == t@),
{
    let w = chars_of_str(t);
    if s.len() != w.len() {
        return false;
    }
    let mut i: usize = 0;
    while i < s.len()
        invariant
            0 <= i <= s@.len(),
            s@.len() == w@.len(),
            w@ == t@,
            forall|j: int| 0 <= j < i ==> s@[j] == w@[j],
        decreases s@.len() - i,
    {
        if s[i] != w[i] {
            return false;
        }
        i = i + 1;
    }
    proof {
        assert(s@ =~= w@);
    }
    true
}

/// The decimal numeral of `n` denotes `n`, consists of decimal digits only,
/// and never starts with `0` unless it is exactly `0`.
pub proof fn lemma_dec_digits_of(n: nat)
    ensures
        dec_digits_of(n).len() > 0,
        all_dec_digits(dec_digits_of(n)),
        dec_value(dec_digits_of(n)) == n,
        n > 0 ==> dec_digits_of(n)[0] != '0',
        n == 0 ==> dec_digits_of(n) == seq!['0'],
    decreases n,
{
    let s = dec_digits_of(n);
    if n < 10 {
        assert(s == seq![((48 + n) as u8) as char]);
        assert(s.drop_last() =~= Seq::<char>::empty());
        assert(dec_value(Seq::<char>::empty()) == 0);
        assert(s.last() == ((48 + n) as u8) as char);
        assert(dec_value(s) == dec_value(s.drop_last()) * 10 + dec_digit_val(s.last()));
        assert(dec_value(s) == dec_digit_val(((48 + n) as u8) as char));
    } else {
        lemma_dec_digits_of(n / 10);
        let t = dec_digits_of(n / 10);
        assert(s == t.push(((48 + n % 10) as u8) as char));
        assert(s.drop_last() =~= t);
        assert(dec_value(s) == dec_value(t) * 10 + dec_digit_val(s.last()));
        assert(n / 10 * 10 + n % 10 == n) by (nonlinear_arith);
        assert forall|i: int| 0 <= i < s.len() implies is_dec_digit(#[trigger] s[i]) by {
            if i < t.len() {
                assert(s[i] == t[i]);
            }
        }
        assert(s[0] == t[0]);
    }
}

/// The lower-case hex digit for `k`.
pub open spec fn hex_digit_char(k: nat) -> char {
    if k < 10 {
        ((48 + k) as u8) as char
    } else {
        ((87 + k) as u8) as char
    }
}

/// The lower-case hexadecimal numeral of `n`, without leading zeros
/// (`0` for zero).
pub open spec fn hex_digits_of(n: nat) -> Seq<char>
    decreases n,
{
    if n < 16 {
        seq![hex_digit_char(n)]
    } else {
        hex_digits_of(n / 16).push(hex_digit_char(n % 16))
    }
}

/// A code formatted as `0x` and at least two lower-case hex digits.
pub open spec fn hex_code_text(n: u16) -> Seq<char> {
    seq!['0', 'x'] + (if n < 16 {
        seq!['0'] + hex_digits_of(n as nat)
    } else {
        hex_digits_of(n as nat)
    })
}

fn push_hex_digits(n: u64, out: &mut Vec<char>)
    ensures
        final(out)@ == old(out)@ + hex_digits_of(n as nat),
    decreases n,
{
    if n < 16 {
        let d: u64 = n;
        if d < 10 {
            out.push(((48 + d) as u8) as char);
        } else {
            out.push(((87 + d) as u8) as char);
        }
        assert(out@ =~= old(out)@ + hex_digits_of(n as nat));
    } else {
        push_hex_digits(n / 16, out);
        let d: u64 = n % 16;
        if d < 10 {
            out.push(((48 + d) as u8) as char);
        } else {
            out.push(((87 + d) as u8) as char);
        }
        assert(out@ =~= old(out)@ + hex_digits_of(n as nat));
    }
}

/// Formats a code as `0x` and at least two lower-case hex digits, per
/// `hex_code_text`.
pub fn format_hex_code(n: u16) -> (r: String)
    ensures
        r@ == hex_code_text(n),
{
    let mut v: Vec<char> = Vec::new();
    v.push('0');
    v.push('x');
    if n < 16 {
        v.push('0');
    }
    push_hex_digits(n as u64, &mut v);
    proof {
        assert(v@ =~= hex_code_text(n));
    }
    string_from_chars(&v)
}

/// `s` with leading and trailing blank characters removed.
pub open spec fn trimmed(s: Seq<char>) -> Seq<char>
    decreases s.len(),
{
    if s.len() > 0 && is_blank(s[0]) {
        trimmed(s.drop_first())
    } else if s.len() > 0 && is_blank(s.last()) {
        trimmed(s.drop_last())
    } else {
        s
    }
}

pub proof fn lemma_dec_prefix_grows(s: Seq<char>, t: Seq<char>)
    requires
        s.len() <= t.len(),
        forall|i: int| 0 <= i < s.len() ==> s[i] == t[i],
    ensures
        dec_value(s) <= dec_value(t),
    decreases t.len(),
{
    if t.len() > s.len() {
        assert(t.drop_last().len() == t.len() - 1);
        lemma_dec_prefix_grows(s, t.drop_last());
        assert(dec_value(t) == dec_value(t.drop_last()) * 10 + dec_digit_val(t.last()));
        assert(dec_value(t.drop_last()) * 10 >= dec_value(t.drop_last())) by (nonlinear_arith);
    } else {
        assert(s =~= t);
    }
}

pub proof fn lemma_hex_prefix_grows(s: Seq<char>, t: Seq<char>)
    requires
        s.len() <= t.len(),
        forall|i: int| 0 <= i < s.len() ==> s[i] == t[i],
    ensures
        hex_value(s) <= hex_value(t),
    decreases t.len(),
{
    if t.len() > s.len() {
        lemma_hex_prefix_grows(s, t.drop_last());
        assert(hex_value(t) == hex_value(t.drop_last()) * 16 + hex_digit_val(t.last()));
        assert(hex_value(t.drop_last()) * 16 >= hex_value(t.drop_last())) by (nonlinear_arith);
    } else {
        assert(s =~= t);
    }
}

pub fn exec_is_space(c: char) -> (r: bool)
    ensures
        r == is_space(c),
{
    c == ' ' || c == '\t'
}

pub fn exec_is_line_break(c: char) -> (r: bool)
    ensures
        r == is_line_break(c),
{
    c == '\n' || c == '\r'
}

pub fn exec_is_blank(c: char) -> (r: bool)
    ensures
        r == is_blank(c),
{
    c == ' ' || c == '\t' || c == '\n' || c == '\r'
}

pub fn exec_is_hex_digit(c: char) -> (r: bool)
    ensures
        r == is_hex_digit(c),
{
    let v = c as u32;
    (48 <= v && v <= 57) || (97 <= v && v <= 102) || (65 <= v && v <= 70)
}

pub fn exec_is_dec_digit(c: char) -> (r: bool)
    ensures
        r == is_dec_digit(c),
{
    let v = c as u32;
    48 <= v && v <= 57
}

/// Parses `s[start..end]` as a hexadecimal numeral into a `u16`.
/// Fails on an empty range, a non-hex character, or a value above `u16::MAX`.
pub fn parse_hex_u16(s: &Vec<char>, start: usize, end: usize) -> (r: Option<u16>)
    requires
        start <= end <= s@.len(),
    ensures
        ({
            let field = s@.subrange(start as int, end as int);
            match r {
                Some(v) => all_hex_digits(field) && field.len() > 0 && hex_value(field) == v,
                None => !(all_hex_digits(field) && field.len() > 0 && hex_value(field) <= u16::MAX),
            }
        }),
{
    let ghost field = s@.subrange(start as int, end as int);
    if start == end {
        return None;
    }
    let mut val: u32 = 0;
    let mut i: usize = start;
    while i < end
        invariant
            start <= i <= end <= s@.len(),
            field == s@.subrange(start as int, end as int),
            all_hex_digits(s@.subrange(start as int, i as int)),
            val == hex_value(s@.subrange(start as int, i as int)),
            val <= u16::MAX,
        decreases end - i,
    {
        let c = s[i];
        if !exec_is_hex_digit(c) {
            assert(field[i - start] == c);
            return None;
        }
        let d: u32 = hex_digit_to_val(c);
        let next: u32 = val * 16 + d;
        proof {
            let pre = s@.subrange(start as int, i as int);
            let cur = s@.subrange(start as int, i + 1 as int);
            assert(cur.drop_last() =~= pre);
            assert(cur.last() == c);
            assert(hex_value(cur) == hex_value(pre) * 16 + hex_digit_val(c));
        }
        if next > 0xFFFF {
            proof {
                let cur = s@.subrange(start as int, i + 1 as int);
                lemma_hex_prefix_grows(cur, field);
                assert(forall|j: int|
                    0 <= j < cur.len() ==> cur[j] == #[trigger] field[j]);
            }
            return None;
        }
        val = next;
        i = i + 1;
    }
    assert(s@.subrange(start as int, i as int) =~= field);
    Some(val as u16)
}

/// Parses `s[start..end]` as a decimal numeral into a `u64`.
/// Fails on an empty range, a non-digit character, or a value above `u64::MAX`.
pub fn parse_dec_u64(s: &Vec<char>, start: usize, end: usize) -> (r: Option<u64>)
    requires
        start <= end <= s@.len(),
    ensures
        ({
            let field = s@.subrange(start as int, end as int);
            match r {
                Some(v) => all_dec_digits(field) && field.len() > 0 && dec_value(field) == v,
                None => !(all_dec_digits(field) && field.len() > 0 && dec_value(field) <= u64::MAX),
            }
        }),
{
    let ghost field = s@.subrange(start as int, end as int);
    if start == end {
        return None;
    }
    let mut val: u64 = 0;
    let mut i: usize = start;
    while i < end
        invariant
            start <= i <= end <= s@.len(),
            field == s@.subrange(start as int, end as int),
            all_dec_digits(s@.subrange(start as int, i as int)),
            val == dec_value(s@.subrange(start as int, i as int)),
        decreases end - i,
    {
        let c = s[i];
        if !exec_is_dec_digit(c) {
            assert(field[i - start] == c);
            return None;
        }
        let d: u64 = (c as u32 - 48) as u64;
        proof {
            let pre = s@.subrange(start as int, i as int);
            let cur = s@.subrange(start as int, i + 1 as int);
            assert(cur.drop_last() =~= pre);
            assert(cur.last() == c);
            assert(dec_value(cur) == dec_value(pre) * 10 + dec_digit_val(c));
        }
        if val > (u64::MAX - d) / 10 {
            proof {
                let cur = s@.subrange(start as int, i + 1 as int);
                assert(dec_value(cur) > u64::MAX) by (nonlinear_arith)
                    requires
                        dec_value(cur) == dec_value(s@.subrange(start as int, i as int)) * 10
                            + dec_digit_val(c),
                        dec_value(s@.subrange(start as int, i as int)) > (u64::MAX - dec_digit_val(
                            c,
                        )) / 10,
                        dec_digit_val(c) < 10,
                ;
                lemma_dec_prefix_grows(cur, field);
                assert(forall|j: int|
                    0 <= j < cur.len() ==> cur[j] == #[trigger] field[j]);
            }
            return None;
        }
        assert(val * 10 + d <= u64::MAX) by (nonlinear_arith)
            requires
                val <= (u64::MAX - d) / 10,
                d < 10,
        ;
        val = val * 10 + d;
        i = i + 1;
    }
    assert(s@.subrange(start as int, i as int) =~= field);
    Some(val)
}

fn hex_digit_to_val(c: char) -> (r: u32)
    requires
        is_hex_digit(c),
    ensures
        r == hex_digit_val(c),
        r < 16,
{
    let v = c as u32;
    if 48 <= v && v <= 57 {
        v - 48
    } else if 97 <= v && v <= 102 {
        v - 87
    } else {
        v - 55
    }
}

fn push_dec_digits(n: u64, out: &mut Vec<char>)
    ensures
        final(out)@ == old(out)@ + dec_digits_of(n as nat),
    decreases n,
{
    if n < 10 {
        out.push(((48 + n) as u8) as char);
        assert(out@ =~= old(out)@ + dec_digits_of(n as nat));
    } else {
        push_dec_digits(n / 10, out);
        out.push(((48 + n % 10) as u8) as char);
        assert(out@ =~= old(out)@ + dec_digits_of(n as nat));
    }
}

/// Formats `n` as its decimal numeral.
pub fn u64_to_dec_string(n: u64) -> (r: String)
    ensures
        r@ == dec_digits_of(n as nat),
{
    let mut v: Vec<char> = Vec::new();
    push_dec_digits(n, &mut v);
    string_from_chars(&v)
}

/// Relies on `String: FromIterator<char>`: collecting an iterator over the
/// vector's characters yields a string of exactly those characters in order.
#[verifier::external_body]
pub fn string_from_chars(v: &Vec<char>) -> (r: String)
    ensures
        r@ == v@,
{
    v.iter().collect()
}

/// Relies on `str::chars`: the iterator yields exactly the characters of the
/// string in order.
#[verifier::external_body]
pub fn chars_of_str(s: &str) -> (r: Vec<char>)
    ensures
        r@ == s@,
{
    s.chars().collect()
}

/// Removes leading and trailing blank characters.
pub fn trim_chars(s: &Vec<char>) -> (r: Vec<char>)
    ensures
        r@ == trimmed(s@),
{
    let mut lo: usize = 0;
    let mut hi: usize = s.len();
    assert(s@.subrange(0, s@.len() as int) =~= s@);
    while lo < hi && exec_is_blank(s[lo])
        invariant
            0 <= lo <= hi <= s@.len(),
            trimmed(s@) == trimmed(s@.subrange(lo as int, hi as int)),
            hi == s@.len(),
        decreases hi - lo,
    {
        proof {
            let cur = s@.subrange(lo as int, hi as int);
            assert(cur.drop_first() =~= s@.subrange(lo + 1, hi as int));
        }
        lo = lo + 1;
    }
    while lo < hi && exec_is_blank(s[hi - 1])
        invariant
            0 <= lo <= hi <= s@.len(),
            trimmed(s@) == trimmed(s@.subrange(lo as int, hi as int)),
            lo < hi ==> !is_blank(s@[lo as int]),
        decreases hi - lo,
    {
        proof {
            let cur = s@.subrange(lo as int, hi as int);
            assert(cur.drop_last() =~= s@.subrange(lo as int, hi - 1));
            assert(cur[0] == s@[lo as int]);
        }
        hi = hi - 1;
    }
    let mut out: Vec<char> = Vec::new();
    let mut i: usize = lo;
    while i < hi
        invariant
            lo <= i <= hi <= s@.len(),
            out@ == s@.subrange(lo as int, i as int),
        decreases hi - i,
    {
        out.push(s[i]);
        assert(out@ =~= s@.subrange(lo as int, i + 1 as int));
        i = i + 1;
    }
    proof {
        let cur = s@.subrange(lo as int, hi as int);
        if lo < hi {
            assert(cur[0] == s@[lo as int]);
            assert(cur.last() == s@[hi - 1]);
            assert(trimmed(cur) == cur);
        } else {
            assert(cur =~= Seq::<char>::empty());
            assert(trimmed(cur) == cur);
        }
        assert(out@ =~= cur);
    }
    out
}

/// The trimmed text parsed as a hexadecimal `u16`; `None` when empty,
/// non-hexadecimal, or too large.
pub open spec fn spec_parse_hex_field(s: Seq<char>) -> Option<u16> {
    let t = trimmed(s);
    if all_hex_digits(t) && t.len() > 0 && hex_value(t) <= u16::MAX {
        Option::Some(hex_value(t) as u16)
    } else {
        Option::None
    }
}

/// An optional attribute value parsed as hexadecimal, with `0` standing
/// in for a missing or unreadable value.
pub open spec fn spec_hex_or_zero(o: Option<Seq<char>>) -> u16 {
    match o {
        Option::Some(s) => match spec_parse_hex_field(s) {
            Option::Some(v) => v,
            Option::None => 0,
        },
        Option::None => 0,
    }
}

/// An optional text, trimmed.
pub open spec fn trimmed_opt(o: Option<Seq<char>>) -> Option<Seq<char>> {
    match o {
        Option::Some(s) => Option::Some(trimmed(s)),
        Option::None => Option::None,
    }
}

/// Parses a whole trimmed string as a hexadecimal `u16`, per
/// `spec_parse_hex_field`.
pub fn parse_hex_field(s: &String) -> (r: Option<u16>)
    ensures
        r == spec_parse_hex_field(s@),
{
    let t = trim_string(s);
    let r = parse_hex_u16(&t, 0, t.len());
    proof {
        assert(t@.subrange(0, t@.len() as int) =~= t@);
    }
    r
}

/// Parses an optional attribute value as hexadecimal, with `0` for a
/// missing or unreadable value, per `spec_hex_or_zero`.
pub fn hex_or_zero(o: &Option<String>) -> (r: u16)
    ensures
        r == spec_hex_or_zero(opt_str_view(*o)),
{
    match o {
        Option::Some(s) => match parse_hex_field(s) {
            Option::Some(v) => v,
            Option::None => 0,
        },
        Option::None => 0,
    }
}

/// The view of an optional string.
pub open spec fn opt_str_view(o: Option<String>) -> Option<Seq<char>> {
    match o {
        Option::Some(s) => Option::Some(s@),
        Option::None => Option::None,
    }
}

/// Removes leading and trailing blank characters from a string.
pub fn trim_string(s: &String) -> (r: Vec<char>)
    ensures
        r@ == trimmed(s@),
{
    let v = chars_of_str(s.as_str());
    trim_chars(&v)
}

/// The string with leading and trailing blank characters removed.
pub fn trim_to_string(s: &String) -> (r: String)
    ensures
        r@ == trimmed(s@),
{
    let t = trim_string(s);
    string_from_chars(&t)
}

} // verus!
