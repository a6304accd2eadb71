use vstd::prelude::*;
use vstd::string::*;

use crate::duration::Duration;

verus! {

/// A timestamp split into the units people read: hours down to
/// nanoseconds, with the total nanosecond count alongside.
#[derive(Clone, Copy, Debug, PartialEq, Eq, Structural)]
pub struct Timestamp {
    pub nano_total: u64,
    pub nano: u64,
    pub us: u64,
    pub ms: u64,
    pub s: u64,
    pub m: u64,
    pub h: u64,
}

/// A string that does not parse as a timestamp.
#[derive(Clone, Copy, Debug, PartialEq, Eq, Structural)]
pub struct ParseTimestampError;

/// The character of one decimal digit.
pub open spec fn digit_char(d: int) -> char {
    if d == 0 {
        '0'
    } else if d == 1 {
        '1'
    } else if d == 2 {
        '2'
    } else if d == 3 {
        '3'
    } else if d == 4 {
        '4'
    } else if d == 5 {
        '5'
    } else if d == 6 {
        '6'
    } else if d == 7 {
        '7'
    } else if d == 8 {
        '8'
    } else {
        '9'
    }
}

/// The decimal notation of a number, most significant digit first.
pub open spec fn dec_str(n: int) -> Seq<char>
    decreases n,
{
    if n < 10 {
        seq![digit_char(n)]
    } else {
        dec_str(n / 10).push(digit_char(n % 10))
    }
}

/// Decimal notation, zero-padded to at least two digits.
pub open spec fn pad2(n: int) -> Seq<char> {
    if n < 10 {
        seq!['0'] + dec_str(n)
    } else {
        dec_str(n)
    }
}

/// Decimal notation, zero-padded to at least three digits.
pub open spec fn pad3(n: int) -> Seq<char> {
    if n < 10 {
        seq!['0', '0'] + dec_str(n)
    } else if n < 100 {
        seq!['0'] + dec_str(n)
    } else {
        dec_str(n)
    }
}

/// The display of a nanosecond count: minutes and seconds, the
/// milliseconds after a dot, hours in front when there are any, and
/// the microseconds after one more dot when asked for.
pub open spec fn format_spec(nano_total: u64, with_micro: bool) -> Seq<char> {
    let us_total = nano_total as int / 1000;
    let ms_total = us_total / 1000;
    let s_total = ms_total / 1000;
    let m_total = s_total / 60;
    let h = m_total / 60;
    let micro: Seq<char> = if with_micro {
        seq!['.'] + pad3(us_total % 1000)
    } else {
        Seq::<char>::empty()
    };
    let base = pad2(m_total % 60) + seq![':'] + pad2(s_total % 60) + seq!['.'] + pad3(
        ms_total % 1000,
    ) + micro;
    if h == 0 {
        base
    } else {
        pad2(h) + seq![':'] + base
    }
}

/// The display of a split timestamp: its own minute, second and
/// millisecond fields, hours in front when there are any.
pub open spec fn to_string_spec(ts: Timestamp) -> Seq<char> {
    let prefix: Seq<char> = if ts.h > 0 {
        pad2(ts.h as int) + seq![':']
    } else {
        Seq::<char>::empty()
    };
    prefix + pad2(ts.m as int) + seq![':'] + pad2(ts.s as int) + seq!['.'] + pad3(ts.ms as int)
}

/// The split of a nanosecond count into display units.
pub open spec fn from_nano_spec(nano_total: u64) -> Timestamp {
    let nt = nano_total as int;
    let us_total = nt / 1000;
    let ms_total = us_total / 1000;
    let s_total = ms_total / 1000;
    let m_total = s_total / 60;
    Timestamp {
        nano_total,
        nano: (nt % 1000) as u64,
        us: (us_total % 1000) as u64,
        ms: (ms_total % 1000) as u64,
        s: (s_total % 60) as u64,
        m: (m_total % 60) as u64,
        h: (m_total / 60) as u64,
    }
}

/// Appends one decimal digit.
fn push_digit(out: &mut String, d: u64)
    requires
        d < 10,
    ensures
        final(out)@ == old(out)@ + seq![digit_char(d as int)],
{
    if d == 0 {
        out.append("0");
        proof {
            reveal_strlit("0");
            assert(final(out)@ =~= old(out)@ + seq![digit_char(d as int)]);
        }
    } else if d == 1 {
        out.append("1");
        proof {
            reveal_strlit("1");
            assert(final(out)@ =~= old(out)@ + seq![digit_char(d as int)]);
        }
    } else if d == 2 {
        out.append("2");
        proof {
            reveal_strlit("2");
            assert(final(out)@ =~= old(out)@ + seq![digit_char(d as int)]);
        }
    } else if d == 3 {
        out.append("3");
        proof {
            reveal_strlit("3");
            assert(final(out)@ =~= old(out)@ + seq![digit_char(d as int)]);
        }
    } else if d == 4 {
        out.append("4");
        proof {
            reveal_strlit("4");
            assert(final(out)@ =~= old(out)@ + seq![digit_char(d as int)]);
        }
    } else if d == 5 {
        out.append("5");
        proof {
            reveal_strlit("5");
            assert(final(out)@ =~= old(out)@ + seq![digit_char(d as int)]);
        }
    } else if d == 6 {
        out.append("6");
        proof {
            reveal_strlit("6");
            assert(final(out)@ =~= old(out)@ + seq![digit_char(d as int)]);
        }
    } else if d == 7 {
        out.append("7");
        proof {
            reveal_strlit("7");
            assert(final(out)@ =~= old(out)@ + seq![digit_char(d as int)]);
        }
    } else if d == 8 {
        out.append("8");
        proof {
            reveal_strlit("8");
            assert(final(out)@ =~= old(out)@ + seq![digit_char(d as int)]);
        }
    } else {
        out.append("9");
        proof {
            reveal_strlit("9");
            assert(final(out)@ =~= old(out)@ + seq![digit_char(d as int)]);
        }
    }
}

/// Appends the decimal notation of a number.
fn push_dec(out: &mut String, n: u64)
    ensures
        final(out)@ == old(out)@ + dec_str(n as int),
    decreases n,
{
    if n < 10 {
        push_digit(out, n);
    } else {
        push_dec(out, n / 10);
        push_digit(out, n % 10);
        proof {
            assert(final(out)@ =~= old(out)@ + dec_str(n as int));
        }
    }
}

/// Appends a number padded to at least two digits.
fn push_pad2(out: &mut String, n: u64)
    ensures
        final(out)@ == old(out)@ + pad2(n as int),
{
    if n < 10 {
        push_digit(out, 0);
        push_digit(out, n);
        proof {
            assert(final(out)@ =~= old(out)@ + pad2(n as int));
        }
    } else {
        push_dec(out, n);
    }
}

/// Appends a number padded to at least three digits.
fn push_pad3(out: &mut String, n: u64)
    ensures
        final(out)@ == old(out)@ + pad3(n as int),
{
    if n < 10 {
        push_digit(out, 0);
        push_digit(out, 0);
        push_digit(out, n);
        proof {
            assert(final(out)@ =~= old(out)@ + pad3(n as int));
        }
    } else if n < 100 {
        push_digit(out, 0);
        push_dec(out, n);
        proof {
            assert(final(out)@ =~= old(out)@ + pad3(n as int));
        }
    } else {
        push_dec(out, n);
    }
}

impl Timestamp {
    /// Splits a nanosecond count into display units.
    pub fn from_nano(nano_total: u64) -> (r: Timestamp)
        ensures
            r == from_nano_spec(nano_total),
    {
        let us_total = nano_total / 1000;
        let ms_total = us_total / 1000;
        let s_total = ms_total / 1000;
        let m_total = s_total / 60;
        Timestamp {
            nano_total,
            nano: nano_total % 1000,
            us: us_total % 1000,
            ms: ms_total % 1000,
            s: s_total % 60,
            m: m_total % 60,
            h: m_total / 60,
        }
    }

    /// Splits a duration into display units.
    pub fn from_duration(duration: Duration) -> (r: Timestamp)
        ensures
            r == from_nano_spec(duration@),
    {
        Timestamp::from_nano(duration.as_u64())
    }

    /// Renders a nanosecond count as text, with minute, second and
    /// millisecond parts, the hours in front when there are any, and
    /// the microseconds when asked for.
    #[verifier::rlimit(100)]
    pub fn format(nano_total: u64, with_micro: bool) -> (r: String)
        ensures
            r@ == format_spec(nano_total, with_micro),
    {
        let us_total = nano_total / 1000;
        let ms_total = us_total / 1000;
        let s_total = ms_total / 1000;
        let m_total = s_total / 60;
        let h = m_total / 60;

        let mut out = String::new();
        if h != 0 {
            push_pad2(&mut out, h);
            out.append(":");
        }
        push_pad2(&mut out, m_total % 60);
        out.append(":");
        push_pad2(&mut out, s_total % 60);
        out.append(".");
        push_pad3(&mut out, ms_total % 1000);
        if with_micro {
            out.append(".");
            push_pad3(&mut out, us_total % 1000);
        }
        proof {
            reveal_strlit(":");
            reveal_strlit(".");
            assert(out@ =~= format_spec(nano_total, with_micro));
        }
        out
    }

    /// This timestamp as text, from its own fields.
    pub fn to_string(&self) -> (r: String)
        ensures
            r@ == to_string_spec(*self),
    {
        let mut out = String::new();
        if self.h > 0 {
            push_pad2(&mut out, self.h);
            out.append(":");
        }
        push_pad2(&mut out, self.m);
        out.append(":");
        push_pad2(&mut out, self.s);
        out.append(".");
        push_pad3(&mut out, self.ms);
        proof {
            reveal_strlit(":");
            reveal_strlit(".");
            assert(out@ =~= to_string_spec(*self));
        }
        out
    }
}

impl Default for Timestamp {
    fn default() -> (r: Self)
        ensures
            r.nano_total == 0 && r.nano == 0 && r.us == 0 && r.ms == 0 && r.s == 0 && r.m == 0
                && r.h == 0,
    {
        Timestamp { nano_total: 0, nano: 0, us: 0, ms: 0, s: 0, m: 0, h: 0 }
    }
}


/// A decimal digit character.
pub open spec fn is_digit(c: char) -> bool {
    48 <= c as u32 <= 57
}

/// The value of a digit character; anything else counts zero.
pub open spec fn digit_val(c: char) -> int {
    if is_digit(c) {
        c as u32 - 48
    } else {
        0
    }
}

/// The end of the digit run beginning at `i`: the first position at or
/// past `i` that holds no digit.
pub open spec fn digits_end(s: Seq<char>, i: int) -> int
    decreases s.len() - i,
{
    if i < 0 || i >= s.len() || !is_digit(s[i]) {
        i
    } else {
        digits_end(s, i + 1)
    }
}

/// The value of the digit run `s[i..j)`.
pub open spec fn digits_value(s: Seq<char>, i: int, j: int) -> int
    decreases j - i,
{
    if j <= i {
        0
    } else {
        digits_value(s, i, j - 1) * 10 + digit_val(s[j - 1])
    }
}

proof fn lemma_digits_end(s: Seq<char>, i: int)
    requires
        0 <= i <= s.len(),
    ensures
        i <= digits_end(s, i) <= s.len(),
        forall|k: int| i <= k < digits_end(s, i) ==> is_digit(s[k]),
        digits_end(s, i) < s.len() ==> !is_digit(s[digits_end(s, i)]),
    decreases s.len() - i,
{
    if i < s.len() && is_digit(s[i]) {
        lemma_digits_end(s, i + 1);
    }
}

/// A digit run's value only grows as the run extends.
proof fn lemma_digits_value_monotone(s: Seq<char>, from: int, i: int, j: int)
    requires
        from <= i <= j,
    ensures
        0 <= digits_value(s, from, i) <= digits_value(s, from, j),
    decreases j - i,
{
    if i == j {
        lemma_digits_value_nonneg(s, from, i);
    } else {
        lemma_digits_value_monotone(s, from, i, j - 1);
        assert(digits_value(s, from, j) == digits_value(s, from, j - 1) * 10 + digit_val(s[j - 1]));
        assert(digits_value(s, from, j - 1) * 10 >= digits_value(s, from, j - 1)) by (nonlinear_arith)
            requires
                digits_value(s, from, j - 1) >= 0,
        ;
    }
}

proof fn lemma_digits_value_nonneg(s: Seq<char>, from: int, i: int)
    ensures
        digits_value(s, from, i) >= 0,
    decreases i - from,
{
    if i > from {
        lemma_digits_value_nonneg(s, from, i - 1);
        assert(digits_value(s, from, i - 1) * 10 >= 0) by (nonlinear_arith)
            requires
                digits_value(s, from, i - 1) >= 0,
        ;
    }
}

/// The end of the digit run starting at `from`.
fn scan_digits(text: &str, from: usize) -> (r: usize)
    requires
        from <= text@.len(),
    ensures
        from <= r <= text@.len(),
        r == digits_end(text@, from as int),
{
    let len = text.unicode_len();
    let mut i = from;
    loop
        invariant
            from <= i <= len,
            len == text@.len(),
            digits_end(text@, from as int) == digits_end(text@, i as int),
        ensures
            from <= i <= len,
            i == digits_end(text@, from as int),
        decreases len - i,
    {
        if i >= len {
            break;
        }
        let c = text.get_char(i);
        let v = c as u32;
        if v < 48 || v > 57 {
            break;
        }
        i = i + 1;
    }
    i
}

/// The value of the digit run `text[from..to)`, unless it does not fit
/// a `u64`.
fn digits_to_u64(text: &str, from: usize, to: usize) -> (r: Option<u64>)
    requires
        from <= to <= text@.len(),
        forall|k: int| from <= k < to ==> is_digit(text@[k]),
    ensures
        match r {
            Option::Some(v) => v == digits_value(text@, from as int, to as int),
            Option::None => digits_value(text@, from as int, to as int) > u64::MAX,
        },
{
    let mut acc: u64 = 0;
    let mut i = from;
    while i < to
        invariant
            from <= i <= to <= text@.len(),
            forall|k: int| from <= k < to ==> is_digit(text@[k]),
            acc == digits_value(text@, from as int, i as int),
        decreases to - i,
    {
        let c = text.get_char(i);
        let d = (c as u32 - 48) as u64;
        let shifted = match acc.checked_mul(10) {
            Option::Some(v) => v,
            Option::None => {
                proof {
                    assert(acc * 10 > u64::MAX);
                    lemma_digits_value_monotone(text@, from as int, i + 1, to as int);
                    assert(digits_value(text@, from as int, i + 1) == acc * 10 + digit_val(
                        text@[i as int],
                    ));
                }
                return Option::None;
            },
        };
        let next = match shifted.checked_add(d) {
            Option::Some(v) => v,
            Option::None => {
                proof {
                    lemma_digits_value_monotone(text@, from as int, i + 1, to as int);
                    assert(digits_value(text@, from as int, i + 1) == acc * 10 + digit_val(
                        text@[i as int],
                    ));
                }
                return Option::None;
            },
        };
        acc = next;
        i = i + 1;
    }
    Option::Some(acc)
}

/// The nanosecond total of the split fields, unless it does not fit a
/// `u64`.
fn checked_nano_total(h: u64, m: u64, s: u64, ms: u64, us: u64, nano: u64) -> (r: Option<u64>)
    ensures
        ({
            let total = ((((h * 60 + m) * 60 + s) * 1000 + ms) * 1000 + us) * 1000 + nano;
            match r {
                Option::Some(v) => v == total,
                Option::None => total > u64::MAX,
            }
        }),
{
    proof {
        let a = h * 60 + m;
        let b = a * 60 + s;
        let c = b * 1000 + ms;
        let d = c * 1000 + us;
        assert(a * 60 >= a && b * 1000 >= b && c * 1000 >= c && d * 1000 >= d && h * 60 >= 0 && a
            * 60 >= 0 && b * 1000 >= 0 && c * 1000 >= 0 && d * 1000 >= 0) by (nonlinear_arith)
            requires
                a >= 0 && b >= 0 && c >= 0 && d >= 0 && h >= 0,
        ;
    }
    let a = match h.checked_mul(60) {
        Option::Some(v) => match v.checked_add(m) {
            Option::Some(v) => v,
            Option::None => {
                return Option::None;
            },
        },
        Option::None => {
            return Option::None;
        },
    };
    let b = match a.checked_mul(60) {
        Option::Some(v) => match v.checked_add(s) {
            Option::Some(v) => v,
            Option::None => {
                return Option::None;
            },
        },
        Option::None => {
            return Option::None;
        },
    };
    let c = match b.checked_mul(1000) {
        Option::Some(v) => match v.checked_add(ms) {
            Option::Some(v) => v,
            Option::None => {
                return Option::None;
            },
        },
        Option::None => {
            return Option::None;
        },
    };
    let d = match c.checked_mul(1000) {
        Option::Some(v) => match v.checked_add(us) {
            Option::Some(v) => v,
            Option::None => {
                return Option::None;
            },
        },
        Option::None => {
            return Option::None;
        },
    };
    match d.checked_mul(1000) {
        Option::Some(v) => match v.checked_add(nano) {
            Option::Some(v) => Option::Some(v),
            Option::None => Option::None,
        },
        Option::None => Option::None,
    }
}

/// What a timestamp string parses to, if anything: one or two
/// colon-separated components decide between the minutes form
/// `MM:SS[.mmm[.uuu[.nnn]]]` and the hours form `HH:MM[:SS[.mmm[.uuu]]]`,
/// every numeric part must fit, nothing may follow, and the nanosecond
/// total must fit too.
pub open spec fn parse_spec(s: Seq<char>) -> Option<Timestamp> {
    let e1 = digits_end(s, 0);
    let nb1 = digits_value(s, 0, e1);
    if e1 == 0 || nb1 > u64::MAX {
        Option::None
    } else if !(e1 < s.len() && s[e1] == ':') {
        Option::None
    } else {
        let p2 = e1 + 1;
        let e2 = digits_end(s, p2);
        let nb2 = digits_value(s, p2, e2);
        if e2 == p2 || nb2 > u64::MAX {
            Option::None
        } else {
            let sep: Option<bool> = if e2 < s.len() && s[e2] == ':' {
                Option::Some(true)
            } else if e2 < s.len() && s[e2] == '.' {
                Option::Some(false)
            } else {
                Option::None
            };
            let p3 = if sep is Some {
                e2 + 1
            } else {
                e2
            };
            let e3 = digits_end(s, p3);
            let has3 = e3 > p3;
            let nb3 = digits_value(s, p3, e3);
            if has3 && nb3 > u64::MAX {
                Option::None
            } else {
                let p4 = e3;
                let has4 = p4 < s.len() && s[p4] == '.' && digits_end(s, p4 + 1) > p4 + 1;
                let e4 = digits_end(s, p4 + 1);
                let nb4 = digits_value(s, p4 + 1, e4);
                if has4 && nb4 > u64::MAX {
                    Option::None
                } else {
                    let p5 = if has4 {
                        e4
                    } else {
                        p4
                    };
                    let has5 = p5 < s.len() && s[p5] == '.' && digits_end(s, p5 + 1) > p5 + 1;
                    let e5 = digits_end(s, p5 + 1);
                    let nb5 = digits_value(s, p5 + 1, e5);
                    if has5 && nb5 > u64::MAX {
                        Option::None
                    } else {
                        let pe = if has5 {
                            e5
                        } else {
                            p5
                        };
                        if pe != s.len() {
                            Option::None
                        } else {
                            let hours_form = sep == Option::Some(true);
                            let h = if hours_form {
                                nb1
                            } else {
                                0
                            };
                            let m = if hours_form {
                                nb2
                            } else {
                                nb1
                            };
                            let sec = if hours_form {
                                if has3 {
                                    nb3
                                } else {
                                    0
                                }
                            } else {
                                nb2
                            };
                            let ms = if hours_form {
                                if has4 {
                                    nb4
                                } else {
                                    0
                                }
                            } else {
                                if has3 {
                                    nb3
                                } else {
                                    0
                                }
                            };
                            let us = if hours_form {
                                if has5 {
                                    nb5
                                } else {
                                    0
                                }
                            } else {
                                if has4 {
                                    nb4
                                } else {
                                    0
                                }
                            };
                            let nano = if hours_form {
                                0
                            } else {
                                if has5 {
                                    nb5
                                } else {
                                    0
                                }
                            };
                            let total = ((((h * 60 + m) * 60 + sec) * 1000 + ms) * 1000 + us)
                                * 1000 + nano;
                            if total > u64::MAX {
                                Option::None
                            } else {
                                Option::Some(
                                    Timestamp {
                                        nano_total: total as u64,
                                        nano: nano as u64,
                                        us: us as u64,
                                        ms: ms as u64,
                                        s: sec as u64,
                                        m: m as u64,
                                        h: h as u64,
                                    },
                                )
                            }
                        }
                    }
                }
            }
        }
    }
}

impl Timestamp {
    /// Parses the text of a timestamp.
    #[verifier::rlimit(100)]
    pub fn from_string(text: &str) -> (r: Result<Timestamp, ParseTimestampError>)
        ensures
            match parse_spec(text@) {
                Option::Some(ts) => r matches Ok(t) && t == ts,
                Option::None => r is Err,
            },
    {
        let len = text.unicode_len();

        let e1 = scan_digits(text, 0);
        proof {
            lemma_digits_end(text@, 0);
        }
        if e1 == 0 {
            return Result::Err(ParseTimestampError);
        }
        let nb1 = match digits_to_u64(text, 0, e1) {
            Option::Some(v) => v,
            Option::None => {
                return Result::Err(ParseTimestampError);
            },
        };
        if e1 >= len || text.get_char(e1) != ':' {
            return Result::Err(ParseTimestampError);
        }

        let p2 = e1 + 1;
        let e2 = scan_digits(text, p2);
        proof {
            lemma_digits_end(text@, p2 as int);
        }
        if e2 == p2 {
            return Result::Err(ParseTimestampError);
        }
        let nb2 = match digits_to_u64(text, p2, e2) {
            Option::Some(v) => v,
            Option::None => {
                return Result::Err(ParseTimestampError);
            },
        };

        let sep: Option<bool> = if e2 < len && text.get_char(e2) == ':' {
            Option::Some(true)
        } else if e2 < len && text.get_char(e2) == '.' {
            Option::Some(false)
        } else {
            Option::None
        };
        let p3 = if sep.is_some() {
            e2 + 1
        } else {
            e2
        };
        let e3 = scan_digits(text, p3);
        proof {
            lemma_digits_end(text@, p3 as int);
        }
        let has3 = e3 > p3;
        let nb3 = if has3 {
            match digits_to_u64(text, p3, e3) {
                Option::Some(v) => v,
                Option::None => {
                    return Result::Err(ParseTimestampError);
                },
            }
        } else {
            0
        };

        let p4 = e3;
        let has4 = p4 < len && text.get_char(p4) == '.' && {
            let e = scan_digits(text, p4 + 1);
            e > p4 + 1
        };
        let e4 = if p4 < len {
            scan_digits(text, if p4 + 1 <= len {
                p4 + 1
            } else {
                len
            })
        } else {
            p4
        };
        proof {
            if p4 < text@.len() {
                lemma_digits_end(text@, p4 + 1);
            }
        }
        let nb4 = if has4 {
            match digits_to_u64(text, p4 + 1, e4) {
                Option::Some(v) => v,
                Option::None => {
                    return Result::Err(ParseTimestampError);
                },
            }
        } else {
            0
        };

        let p5 = if has4 {
            e4
        } else {
            p4
        };
        let has5 = p5 < len && text.get_char(p5) == '.' && {
            let e = scan_digits(text, p5 + 1);
            e > p5 + 1
        };
        let e5 = if p5 < len {
            scan_digits(text, if p5 + 1 <= len {
                p5 + 1
            } else {
                len
            })
        } else {
            p5
        };
        proof {
            if p5 < text@.len() {
                lemma_digits_end(text@, p5 + 1);
            }
        }
        let nb5 = if has5 {
            match digits_to_u64(text, p5 + 1, e5) {
                Option::Some(v) => v,
                Option::None => {
                    return Result::Err(ParseTimestampError);
                },
            }
        } else {
            0
        };

        let pe = if has5 {
            e5
        } else {
            p5
        };
        if pe != len {
            return Result::Err(ParseTimestampError);
        }

        let hours_form = match sep {
            Option::Some(true) => true,
            _ => false,
        };
        let h = if hours_form {
            nb1
        } else {
            0
        };
        let m = if hours_form {
            nb2
        } else {
            nb1
        };
        let sec = if hours_form {
            if has3 {
                nb3
            } else {
                0
            }
        } else {
            nb2
        };
        let ms = if hours_form {
            if has4 {
                nb4
            } else {
                0
            }
        } else {
            if has3 {
                nb3
            } else {
                0
            }
        };
        let us = if hours_form {
            if has5 {
                nb5
            } else {
                0
            }
        } else {
            if has4 {
                nb4
            } else {
                0
            }
        };
        let nano = if hours_form {
            0
        } else {
            if has5 {
                nb5
            } else {
                0
            }
        };

        match checked_nano_total(h, m, sec, ms, us, nano) {
            Option::Some(total) => Result::Ok(
                Timestamp { nano_total: total, nano, us, ms, s: sec, m, h },
            ),
            Option::None => Result::Err(ParseTimestampError),
        }
    }
}

} // verus!
