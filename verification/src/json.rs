use vstd::prelude::*;

verus! {

/// The lowercase hexadecimal digit for `v` (`0 <= v < 16`).
pub open spec fn hex_digit(v: int) -> char {
    if v < 10 {
        (48 + v) as char
    } else {
        (87 + v) as char
    }
}

/// The JSON text that stands for one character inside a string literal:
/// quote and backslash are escaped, the five named control characters use
/// their short escapes, other control characters use `\u00XX` with
/// lowercase hex digits, and every other character stands for itself.
pub open spec fn json_escape_char(c: char) -> Seq<char> {
    if c == '"' {
        seq!['\\', '"']
    } else if c == '\\' {
        seq!['\\', '\\']
    } else if c == '\u{8}' {
        seq!['\\', 'b']
    } else if c == '\t' {
        seq!['\\', 't']
    } else if c == '\n' {
        seq!['\\', 'n']
    } else if c == '\u{c}' {
        seq!['\\', 'f']
    } else if c == '\r' {
        seq!['\\', 'r']
    } else if (c as u32) < 0x20 {
        seq!['\\', 'u', '0', '0', hex_digit((c as int) / 16), hex_digit((c as int) % 16)]
    } else {
        seq![c]
    }
}

/// The escaped body of a JSON string literal holding `s`.
pub open spec fn json_escape(s: Seq<char>) -> Seq<char>
    decreases s.len(),
{
    if s.len() == 0 {
        Seq::empty()
    } else {
        json_escape_char(s[0]) + json_escape(s.drop_first())
    }
}

/// The JSON string literal holding `s`.
pub open spec fn json_quote(s: Seq<char>) -> Seq<char> {
    seq!['"'] + json_escape(s) + seq!['"']
}

/// The decimal digit character for `d` (`0 <= d < 10`).
pub open spec fn digit_char(d: int) -> char {
    (48 + d) as char
}

/// The decimal text of a natural number, without leading zeros.
pub open spec fn decimal_text(n: nat) -> Seq<char>
    decreases n,
{
    if n < 10 {
        seq![digit_char(n as int)]
    } else {
        decimal_text(n / 10) + seq![digit_char((n % 10) as int)]
    }
}

/// The JSON text of an integer.
pub open spec fn int_text(i: int) -> Seq<char> {
    if i < 0 {
        seq!['-'] + decimal_text((-i) as nat)
    } else {
        decimal_text(i as nat)
    }
}

/// The value of a hexadecimal digit of either case.
pub open spec fn hex_value(c: char) -> Option<int> {
    if '0' <= c && c <= '9' {
        Some(c as int - 48)
    } else if 'a' <= c && c <= 'f' {
        Some(c as int - 87)
    } else if 'A' <= c && c <= 'F' {
        Some(c as int - 55)
    } else {
        None
    }
}

/// The value of four hexadecimal digits starting at `at`.
pub open spec fn hex4(s: Seq<char>, at: int) -> Option<int> {
    match (hex_value(s[at]), hex_value(s[at + 1]), hex_value(s[at + 2]), hex_value(s[at + 3])) {
        (Some(a), Some(b), Some(c), Some(d)) => Some(((a * 16 + b) * 16 + c) * 16 + d),
        _ => None,
    }
}

/// `c` put in front of the text held by `o`, if any.
pub open spec fn prepend(c: char, o: Option<Seq<char>>) -> Option<Seq<char>> {
    match o {
        Some(t) => Some(seq![c] + t),
        None => None,
    }
}

/// The character a simple escape `\e` stands for, if `e` names one.
pub open spec fn simple_escape(e: char) -> Option<char> {
    if e == '"' {
        Some('"')
    } else if e == '\\' {
        Some('\\')
    } else if e == '/' {
        Some('/')
    } else if e == 'b' {
        Some('\u{8}')
    } else if e == 'f' {
        Some('\u{c}')
    } else if e == 'n' {
        Some('\n')
    } else if e == 'r' {
        Some('\r')
    } else if e == 't' {
        Some('\t')
    } else {
        None
    }
}

/// The text held by the body of a JSON string literal, if the body is
/// well formed: escapes are resolved, surrogate escapes must come in
/// leading/trailing pairs, and a bare quote or control character is
/// refused.
pub open spec fn json_unescape(b: Seq<char>) -> Option<Seq<char>>
    decreases b.len(),
{
    if b.len() == 0 {
        Some(Seq::empty())
    } else if b[0] == '\\' {
        if b.len() < 2 {
            None
        } else if simple_escape(b[1]) is Some {
            prepend(simple_escape(b[1])->0, json_unescape(b.skip(2)))
        } else if b[1] == 'u' && b.len() >= 6 {
            match hex4(b, 2) {
                None => None,
                Some(n) => if 0xDC00 <= n && n <= 0xDFFF {
                    None
                } else if n < 0xD800 || n > 0xDBFF {
                    prepend(n as char, json_unescape(b.skip(6)))
                } else if b.len() >= 12 && b[6] == '\\' && b[7] == 'u' {
                    match hex4(b, 8) {
                        None => None,
                        Some(m) => if 0xDC00 <= m && m <= 0xDFFF {
                            prepend(
                                ((n - 0xD800) * 1024 + (m - 0xDC00) + 0x10000) as char,
                                json_unescape(b.skip(12)),
                            )
                        } else {
                            None
                        },
                    }
                } else {
                    None
                },
            }
        } else {
            None
        }
    } else if b[0] == '"' || (b[0] as u32) < 0x20 {
        None
    } else {
        prepend(b[0], json_unescape(b.skip(1)))
    }
}

/// The text held by a JSON string literal, if `raw` is one.
pub open spec fn json_string_value(raw: Seq<char>) -> Option<Seq<char>> {
    if raw.len() >= 2 && raw[0] == '"' && raw[raw.len() - 1] == '"' {
        json_unescape(raw.subrange(1, raw.len() - 1))
    } else {
        None
    }
}

/// Whether every character of `s` is a decimal digit.
pub open spec fn all_digits(s: Seq<char>) -> bool {
    forall|i: int| 0 <= i < s.len() ==> '0' <= #[trigger] s[i] && s[i] <= '9'
}

/// The value of a sequence of decimal digits.
pub open spec fn digits_value(s: Seq<char>) -> nat
    decreases s.len(),
{
    if s.len() == 0 {
        0
    } else {
        digits_value(s.drop_last()) * 10 + (s.last() as int - 48) as nat
    }
}

/// The integer a JSON number denotes when it is an integer (an optional
/// minus sign, then digits without a leading zero) that fits in `i64`;
/// `-0` is read as a floating-point number, so it is no integer.
pub open spec fn json_int_value(raw: Seq<char>) -> Option<int> {
    let neg = raw.len() > 0 && raw[0] == '-';
    let digits = if neg {
        raw.skip(1)
    } else {
        raw
    };
    if digits.len() == 0 || !all_digits(digits) || (digits.len() > 1 && digits[0] == '0') || (neg
        && digits == seq!['0']) {
        None
    } else {
        let v: int = if neg {
            -(digits_value(digits) as int)
        } else {
            digits_value(digits) as int
        };
        if i64::MIN <= v && v <= i64::MAX {
            Some(v)
        } else {
            None
        }
    }
}

/// The natural number a JSON number denotes when it is a non-negative
/// integer: digits without a leading zero and no sign.
pub open spec fn json_unsigned_value(raw: Seq<char>) -> Option<nat> {
    if raw.len() == 0 || !all_digits(raw) || (raw.len() > 1 && raw[0] == '0') {
        None
    } else {
        Some(digits_value(raw))
    }
}


/// Text `p` put in front of the text held by `o`, if any.
pub open spec fn prefix_with(p: Seq<char>, o: Option<Seq<char>>) -> Option<Seq<char>> {
    match o {
        Some(t) => Some(p + t),
        None => None,
    }
}

/// The views of an optional character vector.
pub open spec fn opt_chars(o: Option<Vec<char>>) -> Option<Seq<char>> {
    match o {
        Some(v) => Some(v@),
        None => None,
    }
}

/// `char::from_u32`: the character with code point `v`, or `None` when
/// `v` is a surrogate or beyond the last code point, as its
/// documentation states.
#[verifier::external_body]
fn char_from_u32(v: u32) -> (r: Option<char>)
    ensures
        (v <= 0x10FFFF && !(0xD800 <= v && v <= 0xDFFF)) ==> r == Some(v as char),
        !(v <= 0x10FFFF && !(0xD800 <= v && v <= 0xDFFF)) ==> r is None,
{
    char::from_u32(v)
}

fn hex_digit_char(v: u8) -> (c: char)
    requires
        v < 16,
    ensures
        c == hex_digit(v as int),
{
    if v < 10 {
        (48 + v) as char
    } else {
        (87 + v) as char
    }
}

/// Appends the escaped form of `c` to `out`.
fn push_escaped_char(out: &mut Vec<char>, c: char)
    ensures
        final(out)@ == old(out)@ + json_escape_char(c),
{
    let code = c as u32;
    if c == '"' {
        out.push('\\');
        out.push('"');
    } else if c == '\\' {
        out.push('\\');
        out.push('\\');
    } else if c == '\u{8}' {
        out.push('\\');
        out.push('b');
    } else if c == '\t' {
        out.push('\\');
        out.push('t');
    } else if c == '\n' {
        out.push('\\');
        out.push('n');
    } else if c == '\u{c}' {
        out.push('\\');
        out.push('f');
    } else if c == '\r' {
        out.push('\\');
        out.push('r');
    } else if code < 0x20 {
        let b = code as u8;
        out.push('\\');
        out.push('u');
        out.push('0');
        out.push('0');
        out.push(hex_digit_char(b / 16));
        out.push(hex_digit_char(b % 16));
    } else {
        out.push(c);
    }
    proof {
        assert(final(out)@ =~= old(out)@ + json_escape_char(c));
    }
}

/// Appends the JSON string literal holding `s` to `out`.
pub fn push_quoted(out: &mut Vec<char>, s: &[char])
    ensures
        final(out)@ == old(out)@ + json_quote(s@),
{
    let ghost start = out@;
    out.push('"');
    let n = s.len();
    let mut i: usize = 0;
    proof {
        assert(s@.skip(0) =~= s@);
    }
    while i < n
        invariant
            n == s@.len(),
            i <= n,
            start + seq!['"'] + json_escape(s@) == out@ + json_escape(s@.skip(i as int)),
        decreases n - i,
    {
        proof {
            assert(s@.skip(i as int).drop_first() =~= s@.skip(i + 1));
        }
        push_escaped_char(out, s[i]);
        i = i + 1;
        proof {
            assert(start + seq!['"'] + json_escape(s@) =~= out@ + json_escape(s@.skip(i as int)));
        }
    }
    out.push('"');
    proof {
        assert(s@.skip(n as int) =~= Seq::<char>::empty());
        assert(final(out)@ =~= old(out)@ + json_quote(s@));
    }
}

/// Appends the decimal text of `n` to `out`.
pub fn push_decimal(out: &mut Vec<char>, n: u64)
    ensures
        final(out)@ == old(out)@ + decimal_text(n as nat),
    decreases n,
{
    if n >= 10 {
        push_decimal(out, n / 10);
    }
    let d = (n % 10) as u8;
    out.push((48 + d) as char);
    proof {
        assert(final(out)@ =~= old(out)@ + decimal_text(n as nat));
    }
}

/// Appends the JSON text of `i` to `out`.
pub fn push_int(out: &mut Vec<char>, i: i64)
    ensures
        final(out)@ == old(out)@ + int_text(i as int),
{
    if i < 0 {
        out.push('-');
        let magnitude: u64 = if i == i64::MIN {
            9_223_372_036_854_775_808u64
        } else {
            (-i) as u64
        };
        push_decimal(out, magnitude);
        proof {
            assert(final(out)@ =~= old(out)@ + int_text(i as int));
        }
    } else {
        push_decimal(out, i as u64);
    }
}

fn hex_char_value(c: char) -> (r: Option<u32>)
    ensures
        match hex_value(c) {
            Some(v) => r == Some(v as u32),
            None => r is None,
        },
{
    if '0' <= c && c <= '9' {
        Some(c as u32 - 48)
    } else if 'a' <= c && c <= 'f' {
        Some(c as u32 - 87)
    } else if 'A' <= c && c <= 'F' {
        Some(c as u32 - 55)
    } else {
        None
    }
}

fn hex4_value(s: &[char], at: usize) -> (r: Option<u32>)
    requires
        at + 4 <= s@.len(),
    ensures
        match hex4(s@, at as int) {
            Some(v) => r == Some(v as u32) && 0 <= v < 0x10000,
            None => r is None,
        },
{
    let a = hex_char_value(s[at]);
    let b = hex_char_value(s[at + 1]);
    let c = hex_char_value(s[at + 2]);
    let d = hex_char_value(s[at + 3]);
    match (a, b, c, d) {
        (Some(a), Some(b), Some(c), Some(d)) => Some(((a * 16 + b) * 16 + c) * 16 + d),
        _ => None,
    }
}

/// Reads the `\u` escape that starts at `i`: the character it stands
/// for and the number of characters it spans.
fn unicode_escape(b: &[char], i: usize) -> (r: Option<(char, usize)>)
    requires
        i + 2 <= b@.len(),
        b@[i as int] == '\\',
        b@[i + 1] == 'u',
    ensures
        match r {
            Some((ch, k)) => (k == 6 || k == 12) && i + k <= b@.len() && json_unescape(b@.skip(i as int))
                == prepend(ch, json_unescape(b@.skip(i + k))),
            None => json_unescape(b@.skip(i as int)) is None,
        },
{
    let n = b.len();
    let ghost rest = b@.skip(i as int);
    proof {
        assert(rest[0] == '\\' && rest[1] == 'u');
        assert(simple_escape('u') is None);
    }
    if n - i < 6 {
        return None;
    }
    proof {
        assert(hex4(rest, 2) == hex4(b@, i + 2));
    }
    let first = match hex4_value(b, i + 2) {
        Some(v) => v,
        None => {
            return None;
        },
    };
    if 0xDC00 <= first && first <= 0xDFFF {
        return None;
    }
    if first < 0xD800 || first > 0xDBFF {
        let ch = match char_from_u32(first) {
            Some(ch) => ch,
            None => {
                return None;
            },
        };
        proof {
            assert(rest.skip(6) =~= b@.skip(i + 6));
        }
        return Some((ch, 6));
    }
    if n - i < 12 || b[i + 6] != '\\' || b[i + 7] != 'u' {
        proof {
            assert(n - i >= 12 ==> rest[6] == b@[i + 6] && rest[7] == b@[i + 7]);
        }
        return None;
    }
    proof {
        assert(rest[6] == b@[i + 6] && rest[7] == b@[i + 7]);
        assert(hex4(rest, 8) == hex4(b@, i + 8));
    }
    let second = match hex4_value(b, i + 8) {
        Some(v) => v,
        None => {
            return None;
        },
    };
    if second < 0xDC00 || second > 0xDFFF {
        return None;
    }
    let code = (first - 0xD800) * 1024 + (second - 0xDC00) + 0x10000;
    let ch = match char_from_u32(code) {
        Some(ch) => ch,
        None => {
            return None;
        },
    };
    proof {
        assert(rest.skip(12) =~= b@.skip(i + 12));
    }
    Some((ch, 12))
}

fn simple_escape_char(e: char) -> (r: Option<char>)
    ensures
        r == simple_escape(e),
{
    if e == '"' {
        Some('"')
    } else if e == '\\' {
        Some('\\')
    } else if e == '/' {
        Some('/')
    } else if e == 'b' {
        Some('\u{8}')
    } else if e == 'f' {
        Some('\u{c}')
    } else if e == 'n' {
        Some('\n')
    } else if e == 'r' {
        Some('\r')
    } else if e == 't' {
        Some('\t')
    } else {
        None
    }
}

/// The text held by the escaped body `b` of a JSON string literal.
pub fn unescape(b: &[char]) -> (r: Option<Vec<char>>)
    ensures
        opt_chars(r) == json_unescape(b@),
{
    let n = b.len();
    let mut out: Vec<char> = Vec::new();
    let mut i: usize = 0;
    proof {
        assert(b@.skip(0) =~= b@);
        assert(prefix_with(Seq::empty(), json_unescape(b@)) =~= json_unescape(b@));
    }
    while i < n
        invariant
            n == b@.len(),
            i <= n,
            json_unescape(b@) == prefix_with(out@, json_unescape(b@.skip(i as int))),
        decreases n - i,
    {
        let ghost rest = b@.skip(i as int);
        let c = b[i];
        proof {
            assert(rest[0] == c);
        }
        let step: Option<(char, usize)> = if c == '\\' {
            if n - i < 2 {
                None
            } else {
                let e = b[i + 1];
                proof {
                    assert(rest[1] == e);
                }
                match simple_escape_char(e) {
                    Some(ch) => {
                        proof {
                            assert(rest.skip(2) =~= b@.skip(i + 2));
                        }
                        Some((ch, 2))
                    },
                    None => if e == 'u' {
                        unicode_escape(b, i)
                    } else {
                        None
                    },
                }
            }
        } else if c == '"' || (c as u32) < 0x20 {
            None
        } else {
            proof {
                assert(rest.skip(1) =~= b@.skip(i + 1));
            }
            Some((c, 1))
        };
        match step {
            Some((ch, k)) => {
                proof {
                    assert(json_unescape(rest) == prepend(ch, json_unescape(b@.skip(i + k))));
                }
                out.push(ch);
                i = i + k;
                proof {
                    assert(json_unescape(b@) =~= prefix_with(out@, json_unescape(b@.skip(i as int))));
                }
            },
            None => {
                proof {
                    assert(json_unescape(rest) is None);
                }
                return None;
            },
        }
    }
    proof {
        assert(b@.skip(n as int) =~= Seq::<char>::empty());
        assert(out@ + Seq::<char>::empty() =~= out@);
    }
    Some(out)
}

/// The text held by the JSON string literal `raw`, if it is one.
pub fn string_value(raw: &[char]) -> (r: Option<Vec<char>>)
    ensures
        opt_chars(r) == json_string_value(raw@),
{
    let n = raw.len();
    if n < 2 || raw[0] != '"' || raw[n - 1] != '"' {
        return None;
    }
    let body = crate::text::slice_chars(raw, 1, n - 1);
    unescape(body.as_slice())
}

/// The value of the decimal digits of `s` from `start` on, when they
/// all are digits and the value is at most `limit`.
fn digits_from(s: &[char], start: usize, limit: u64) -> (r: Option<u64>)
    requires
        start <= s@.len(),
        limit > 9,
    ensures
        match r {
            Some(v) => all_digits(s@.skip(start as int)) && v == digits_value(s@.skip(start as int))
                && v <= limit,
            None => !all_digits(s@.skip(start as int)) || digits_value(s@.skip(start as int))
                > limit,
        },
{
    let n = s.len();
    let ghost digits = s@.skip(start as int);
    let mut acc: u64 = 0;
    let mut i: usize = start;
    proof {
        assert(digits.take(0) =~= Seq::<char>::empty());
    }
    while i < n
        invariant
            start <= i <= n,
            n == s@.len(),
            digits == s@.skip(start as int),
            all_digits(digits.take(i - start)),
            acc == digits_value(digits.take(i - start)),
            limit > 9,
            acc <= limit,
        decreases n - i,
    {
        let c = s[i];
        proof {
            assert(digits[i - start] == c);
        }
        if c < '0' || c > '9' {
            return None;
        }
        let d = (c as u32 - 48) as u64;
        proof {
            assert(d <= 9);
            let t = digits.take(i - start + 1);
            assert(t.drop_last() =~= digits.take(i - start));
            assert(t.last() == c);
            assert(all_digits(t));
            assert(digits_value(t) == acc * 10 + d);
        }
        if acc > (limit - d) / 10 {
            proof {
                assert(acc * 10 + d > limit) by (nonlinear_arith)
                    requires
                        acc > (limit - d) / 10,
                        d <= 9,
                        limit > 9,
                ;
                if all_digits(digits) {
                    assert(digits.take(digits.len() as int) =~= digits);
                    lemma_digits_value_monotone(digits, i - start + 1, digits.len() as int);
                }
            }
            return None;
        }
        proof {
            assert(acc * 10 + d <= limit) by (nonlinear_arith)
                requires
                    acc <= (limit - d) / 10,
                    d <= 9,
                    limit > 9,
            ;
        }
        acc = acc * 10 + d;
        i = i + 1;
    }
    proof {
        assert(digits.take(n - start) =~= digits);
    }
    Some(acc)
}

/// The integer denoted by the JSON number `raw`, if it is an integer that
/// fits in `i64`.
pub fn int_value(raw: &[char]) -> (r: Option<i64>)
    ensures
        match json_int_value(raw@) {
            Some(v) => r == Some(v as i64),
            None => r is None,
        },
{
    let n = raw.len();
    let neg = n > 0 && raw[0] == '-';
    let start: usize = if neg { 1 } else { 0 };
    let ghost digits = raw@.skip(start as int);
    proof {
        assert(digits =~= (if neg { raw@.skip(1) } else { raw@ }));
    }
    if n - start == 0 {
        return None;
    }
    if n - start > 1 && raw[start] == '0' {
        proof {
            assert(digits[0] == raw@[start as int]);
        }
        return None;
    }
    proof {
        assert(digits[0] == raw@[start as int]);
    }
    if neg && n - start == 1 && raw[start] == '0' {
        proof {
            assert(digits =~= seq!['0']);
        }
        return None;
    }
    proof {
        assert(neg ==> digits != seq!['0']);
    }
    match digits_from(raw, start, 9_223_372_036_854_775_808u64) {
        None => None,
        Some(v) => {
            if neg {
                Some((0 - (v as i128)) as i64)
            } else if v < 9_223_372_036_854_775_808u64 {
                Some(v as i64)
            } else {
                None
            }
        },
    }
}

/// The natural number denoted by the JSON number `raw`, if it is a
/// non-negative integer of at most `limit`.
pub fn unsigned_value(raw: &[char], limit: u64) -> (r: Option<u64>)
    ensures
        match json_unsigned_value(raw@) {
            Some(v) => if v <= limit {
                r == Some(v as u64)
            } else {
                r is None
            },
            None => r is None,
        },
{
    let n = raw.len();
    if n == 0 {
        return None;
    }
    if n > 1 && raw[0] == '0' {
        return None;
    }
    let bound: u64 = if limit > 9 { limit } else { 10 };
    let r = digits_from(raw, 0, bound);
    proof {
        assert(raw@.skip(0) =~= raw@);
    }
    match r {
        Some(v) => if v <= limit {
            Some(v)
        } else {
            None
        },
        None => None,
    }
}

proof fn lemma_digits_value_monotone(s: Seq<char>, k: int, j: int)
    requires
        0 <= k <= j <= s.len(),
        all_digits(s.take(j)),
    ensures
        digits_value(s.take(k)) <= digits_value(s.take(j)),
    decreases j - k,
{
    if k < j {
        let t = s.take(j);
        assert(t.drop_last() =~= s.take(j - 1));
        assert(all_digits(s.take(j - 1)));
        lemma_digits_value_monotone(s, k, j - 1);
    }
}

proof fn lemma_hex_digit_value(v: int)
    requires
        0 <= v < 16,
    ensures
        hex_value(hex_digit(v)) == Some(v),
{
    let c = hex_digit(v);
    if v < 10 {
        assert(c as int == 48 + v);
    } else {
        assert(c as int == 87 + v);
    }
}

proof fn lemma_unescape_control(c: char, rest: Seq<char>, tail: Seq<char>)
    requires
        (c as u32) < 0x20,
        c != '\u{8}' && c != '\t' && c != '\n' && c != '\u{c}' && c != '\r',
        json_unescape(rest) == Some(tail),
    ensures
        json_unescape(json_escape_char(c) + rest) == Some(seq![c] + tail),
{
    let v = c as int;
    let e = json_escape_char(c) + rest;
    lemma_hex_digit_value(v / 16);
    lemma_hex_digit_value(v % 16);
    assert(e[0] == '\\' && e[1] == 'u');
    assert(e[2] == '0' && e[3] == '0' && e[4] == hex_digit(v / 16) && e[5] == hex_digit(v % 16));
    assert(hex_value('0') == Some(0int));
    assert(hex4(e, 2) == Some(v));
    assert(simple_escape(e[1]) is None);
    assert(e.skip(6) =~= rest);
    assert((v as char) == c);
}

proof fn lemma_unescape_short(c: char, rest: Seq<char>, tail: Seq<char>)
    requires
        json_escape_char(c).len() == 2,
        json_unescape(rest) == Some(tail),
    ensures
        json_unescape(json_escape_char(c) + rest) == Some(seq![c] + tail),
{
    let e = json_escape_char(c) + rest;
    assert(e[0] == '\\');
    assert(e.skip(2) =~= rest);
}

proof fn lemma_unescape_plain(c: char, rest: Seq<char>, tail: Seq<char>)
    requires
        json_escape_char(c) == seq![c],
        json_unescape(rest) == Some(tail),
    ensures
        json_unescape(json_escape_char(c) + rest) == Some(seq![c] + tail),
{
    let e = json_escape_char(c) + rest;
    assert(e[0] == c);
    assert(e.skip(1) =~= rest);
}

/// Parsing the escaped text of any string gives the string back.
pub proof fn lemma_unescape_escape(s: Seq<char>)
    ensures
        json_unescape(json_escape(s)) == Some(s),
    decreases s.len(),
{
    if s.len() > 0 {
        let c = s[0];
        let tail = s.drop_first();
        lemma_unescape_escape(tail);
        assert(json_escape(s) == json_escape_char(c) + json_escape(tail));
        if c == '"' || c == '\\' || c == '\u{8}' || c == '\t' || c == '\n' || c == '\u{c}' || c == '\r' {
            lemma_unescape_short(c, json_escape(tail), tail);
        } else if (c as u32) < 0x20 {
            lemma_unescape_control(c, json_escape(tail), tail);
        } else {
            lemma_unescape_plain(c, json_escape(tail), tail);
        }
        assert(seq![c] + tail =~= s);
    }
}

/// The string literal written for any string reads back as that string.
pub proof fn lemma_string_value_quote(s: Seq<char>)
    ensures
        json_string_value(json_quote(s)) == Some(s),
{
    lemma_unescape_escape(s);
    let q = json_quote(s);
    assert(q.subrange(1, q.len() - 1) =~= json_escape(s));
}


proof fn lemma_decimal_text(n: nat)
    ensures
        decimal_text(n).len() >= 1,
        all_digits(decimal_text(n)),
        digits_value(decimal_text(n)) == n,
        n >= 1 ==> decimal_text(n)[0] != '0',
        n == 0 ==> decimal_text(n) == seq!['0'],
    decreases n,
{
    let t = decimal_text(n);
    if n < 10 {
        assert(t.drop_last() =~= Seq::<char>::empty());
        assert(t.last() as int == 48 + n);
        assert(digits_value(Seq::<char>::empty()) == 0);
        assert(digits_value(t) == digits_value(t.drop_last()) * 10 + (t.last() as int - 48) as nat);
    } else {
        lemma_decimal_text(n / 10);
        let d = (n % 10) as int;
        assert(t.drop_last() =~= decimal_text(n / 10));
        assert(t.last() as int == 48 + d);
        assert(t[0] == decimal_text(n / 10)[0]);
        assert(n / 10 >= 1);
        assert((n / 10) * 10 + n % 10 == n) by (nonlinear_arith);
        assert(digits_value(t) == digits_value(decimal_text(n / 10)) * 10 + d);
        assert forall|i: int| 0 <= i < t.len() implies '0' <= #[trigger] t[i] && t[i] <= '9' by {
            if i < t.len() - 1 {
                assert(t[i] == decimal_text(n / 10)[i]);
            }
        }
    }
}

/// The JSON text written for any `i64` reads back as that integer.
pub proof fn lemma_int_value_text(i: i64)
    ensures
        json_int_value(int_text(i as int)) == Some(i as int),
{
    let t = int_text(i as int);
    if i < 0 {
        let m = (-(i as int)) as nat;
        lemma_decimal_text(m);
        assert(t.skip(1) =~= decimal_text(m));
        assert(t[0] == '-');
    } else {
        lemma_decimal_text(i as nat);
        assert(decimal_text(i as nat)[0] == '-' ==> false) by {
            assert(decimal_text(i as nat)[0] as int >= 48);
        }
    }
}

/// The decimal text written for any natural number reads back as that
/// number.
pub proof fn lemma_unsigned_value_text(n: nat)
    ensures
        json_unsigned_value(decimal_text(n)) == Some(n),
{
    lemma_decimal_text(n);
    let t = decimal_text(n);
    assert(t[0] as int >= 48);
    assert(t != seq!['-', '0']);
}

} // verus!
