//! Formatting of a calendar time by a pattern (`YY-MM-DD hh:mm:ss`, …) and in
//! the compact ISO 8601 form.
use vstd::prelude::*;
use crate::text::{append_chars, i32_text, nat_digits, spec_i32_text, spec_nat_digits, string_from_chars, to_chars};

verus! {

/// A calendar time broken into its fields; `tz` is the offset from UTC in
/// minutes and `weekday` the name of the day.
pub struct DateParts {
    pub year: u64,
    pub month: u64,
    pub day: u64,
    pub hour: u64,
    pub minute: u64,
    pub second: u64,
    pub weekday: String,
    pub tz: i32,
}

/// The state of the pattern reader: which letters were just read.
#[derive(Clone, Copy, PartialEq, Eq, Structural, Debug)]
pub enum DateFmtState {
    Relax,
    Mon,
    MonMon,
    MonName,
    Week,
    Year,
    YearYear,
    Day,
    DayDay,
    Hour,
    HourHour,
    Min,
    MinMin,
    Sec,
    SecSec,
    Zone,
    Esc,
}

/// The short month names, January first.
pub open spec fn short_month(m: int) -> Seq<char> {
    if m == 1 { "Jan"@ }
    else if m == 2 { "Feb"@ }
    else if m == 3 { "Mar"@ }
    else if m == 4 { "Apr"@ }
    else if m == 5 { "May"@ }
    else if m == 6 { "Jun"@ }
    else if m == 7 { "Jul"@ }
    else if m == 8 { "Aug"@ }
    else if m == 9 { "Sep"@ }
    else if m == 10 { "Oct"@ }
    else if m == 11 { "Nov"@ }
    else { "Dec"@ }
}

/// `n` zeros.
pub open spec fn zeros(n: int) -> Seq<char>
    decreases n,
{
    if n <= 0 { seq![] } else { zeros(n - 1).push('0') }
}

/// `t` padded on the left with zeros to at least `w` characters.
pub open spec fn pad_left(t: Seq<char>, w: int) -> Seq<char> {
    if t.len() >= w { t } else { zeros(w - t.len()) + t }
}

/// `n` in decimal, padded with zeros to two digits.
pub open spec fn two(n: u64) -> Seq<char> {
    pad_left(spec_nat_digits(n as nat), 2)
}

/// The quotient of `a` by `b` rounded toward zero, as Rust's `/` computes it.
pub open spec fn trunc_div(a: int, b: int) -> int {
    if a >= 0 { a / b } else { -((-a) / b) }
}

/// The remainder that goes with `trunc_div`, as Rust's `%` computes it.
pub open spec fn trunc_rem(a: int, b: int) -> int {
    a - b * trunc_div(a, b)
}

/// The text a pattern element stands for.
pub open spec fn mask_text(st: DateFmtState, p: DateParts) -> Seq<char> {
    match st {
        DateFmtState::Mon => spec_nat_digits(p.month as nat),
        DateFmtState::MonMon => two(p.month),
        DateFmtState::MonName => short_month(p.month as int),
        DateFmtState::Day => spec_nat_digits(p.day as nat),
        DateFmtState::DayDay => two(p.day),
        DateFmtState::Year => two(p.year),
        DateFmtState::YearYear => pad_left(spec_nat_digits(p.year as nat), 4),
        DateFmtState::Hour | DateFmtState::HourHour => two(p.hour),
        DateFmtState::Min | DateFmtState::MinMin => two(p.minute),
        DateFmtState::Sec | DateFmtState::SecSec => two(p.second),
        DateFmtState::Week => p.weekday@,
        DateFmtState::Zone => pad_left(spec_i32_text(trunc_div(p.tz as int, 60) as i32), 2)
            + pad_left(spec_i32_text(trunc_rem(p.tz as int, 60) as i32), 2),
        _ => seq![],
    }
}

/// The states a letter moves through when repeated: one, two and three of it.
pub open spec fn letter_states(c: char) -> Option<(DateFmtState, DateFmtState, DateFmtState)> {
    if c == 'M' {
        Some((DateFmtState::Mon, DateFmtState::MonMon, DateFmtState::MonName))
    } else if c == 'D' {
        Some((DateFmtState::Day, DateFmtState::DayDay, DateFmtState::DayDay))
    } else if c == 'Y' {
        Some((DateFmtState::Year, DateFmtState::YearYear, DateFmtState::YearYear))
    } else if c == 'h' {
        Some((DateFmtState::Hour, DateFmtState::HourHour, DateFmtState::HourHour))
    } else if c == 'm' {
        Some((DateFmtState::Min, DateFmtState::MinMin, DateFmtState::MinMin))
    } else if c == 's' {
        Some((DateFmtState::Sec, DateFmtState::SecSec, DateFmtState::SecSec))
    } else if c == 'W' {
        Some((DateFmtState::Week, DateFmtState::Week, DateFmtState::Week))
    } else if c == 'Z' {
        Some((DateFmtState::Zone, DateFmtState::Zone, DateFmtState::Zone))
    } else {
        None
    }
}

/// One character of a pattern: the next state and the text it emits.
/// A letter repeated up to its longest form extends the element; `\` escapes
/// the next letter; any other character ends the element and stands for itself.
pub open spec fn fmt_step(st: DateFmtState, c: char, p: DateParts) -> (DateFmtState, Seq<char>) {
    if c == '\\' {
        if st == DateFmtState::Esc {
            (DateFmtState::Relax, seq!['\\'])
        } else {
            (DateFmtState::Esc, mask_text(st, p))
        }
    } else {
        match letter_states(c) {
            Some((one, two_, three)) => if st == DateFmtState::Esc {
                (DateFmtState::Relax, seq![c])
            } else if st == DateFmtState::Relax {
                (one, seq![])
            } else if st == one && one != two_ {
                (two_, seq![])
            } else if st == two_ && two_ != three && one != two_ {
                (three, seq![])
            } else {
                (one, mask_text(st, p))
            },
            None => (DateFmtState::Relax, mask_text(st, p).push(c)),
        }
    }
}

/// The state and the text after the first `n` characters of the pattern.
pub open spec fn fmt_scan(f: Seq<char>, n: int, p: DateParts) -> (DateFmtState, Seq<char>)
    decreases n,
{
    if n <= 0 {
        (DateFmtState::Relax, seq![])
    } else {
        let (st, out) = fmt_scan(f, n - 1, p);
        let (st2, e) = fmt_step(st, f[n - 1], p);
        (st2, out + e)
    }
}

/// The time `p` written by the pattern `f`.
pub open spec fn spec_format_time(f: Seq<char>, p: DateParts) -> Seq<char> {
    let (st, out) = fmt_scan(f, f.len() as int, p);
    out + mask_text(st, p)
}

/// The time `p` in the compact ISO 8601 form `YYYYMMDDThhmmssZ` (each field
/// at least two digits).
pub open spec fn spec_format_system_time(p: DateParts) -> Seq<char> {
    two(p.year) + two(p.month) + two(p.day) + seq!['T'] + two(p.hour) + two(p.minute) + two(p.second) + seq!['Z']
}

/// `t` padded on the left with zeros to at least `w` characters.
fn pad(t: Vec<char>, w: usize) -> (r: Vec<char>)
    ensures
        r@ == pad_left(t@, w as int),
{
    if t.len() >= w {
        return t;
    }
    let mut r: Vec<char> = Vec::new();
    let mut k: usize = 0;
    let n = w - t.len();
    while k < n
        invariant
            k <= n,
            r@ == zeros(k as int),
        decreases n - k,
    {
        r.push('0');
        k += 1;
    }
    append_chars(&mut r, &t);
    r
}

fn two_exec(n: u64) -> (r: Vec<char>)
    ensures
        r@ == two(n),
{
    pad(nat_digits(n), 2)
}

fn month_name(m: u64) -> (r: Vec<char>)
    ensures
        r@ == short_month(m as int),
{
    if m == 1 { to_chars("Jan") }
    else if m == 2 { to_chars("Feb") }
    else if m == 3 { to_chars("Mar") }
    else if m == 4 { to_chars("Apr") }
    else if m == 5 { to_chars("May") }
    else if m == 6 { to_chars("Jun") }
    else if m == 7 { to_chars("Jul") }
    else if m == 8 { to_chars("Aug") }
    else if m == 9 { to_chars("Sep") }
    else if m == 10 { to_chars("Oct") }
    else if m == 11 { to_chars("Nov") }
    else { to_chars("Dec") }
}

fn mask_exec(st: DateFmtState, p: &DateParts) -> (r: Vec<char>)
    ensures
        r@ == mask_text(st, *p),
{
    match st {
        DateFmtState::Mon => nat_digits(p.month),
        DateFmtState::MonMon => two_exec(p.month),
        DateFmtState::MonName => month_name(p.month),
        DateFmtState::Day => nat_digits(p.day),
        DateFmtState::DayDay => two_exec(p.day),
        DateFmtState::Year => two_exec(p.year),
        DateFmtState::YearYear => pad(nat_digits(p.year), 4),
        DateFmtState::Hour | DateFmtState::HourHour => two_exec(p.hour),
        DateFmtState::Min | DateFmtState::MinMin => two_exec(p.minute),
        DateFmtState::Sec | DateFmtState::SecSec => two_exec(p.second),
        DateFmtState::Week => to_chars(p.weekday.as_str()),
        DateFmtState::Zone => {
            let a: i64 = p.tz as i64;
            let m: i64 = if a < 0 { -a } else { a };
            let q: i64 = m / 60;
            let rm: i64 = m % 60;
            let qi: i32 = if a < 0 { (-q) as i32 } else { q as i32 };
            let ri: i32 = if a < 0 { (-rm) as i32 } else { rm as i32 };
            assert(qi as int == trunc_div(p.tz as int, 60));
            assert(ri as int == trunc_rem(p.tz as int, 60));
            let mut r = pad(i32_text(qi), 2);
            let t = pad(i32_text(ri), 2);
            append_chars(&mut r, &t);
            r
        },
        _ => Vec::new(),
    }
}

/// The states a letter moves through when repeated (see `letter_states`).
fn letter_states_exec(c: char) -> (r: Option<(DateFmtState, DateFmtState, DateFmtState)>)
    ensures
        r == letter_states(c),
{
    if c == 'M' {
        Some((DateFmtState::Mon, DateFmtState::MonMon, DateFmtState::MonName))
    } else if c == 'D' {
        Some((DateFmtState::Day, DateFmtState::DayDay, DateFmtState::DayDay))
    } else if c == 'Y' {
        Some((DateFmtState::Year, DateFmtState::YearYear, DateFmtState::YearYear))
    } else if c == 'h' {
        Some((DateFmtState::Hour, DateFmtState::HourHour, DateFmtState::HourHour))
    } else if c == 'm' {
        Some((DateFmtState::Min, DateFmtState::MinMin, DateFmtState::MinMin))
    } else if c == 's' {
        Some((DateFmtState::Sec, DateFmtState::SecSec, DateFmtState::SecSec))
    } else if c == 'W' {
        Some((DateFmtState::Week, DateFmtState::Week, DateFmtState::Week))
    } else if c == 'Z' {
        Some((DateFmtState::Zone, DateFmtState::Zone, DateFmtState::Zone))
    } else {
        None
    }
}

/// Writes the time `p` by the pattern `fmt_str`: `Y` the year (two digits at
/// least), `YY` four digits, `M`/`MM` the month, `MMM` its short name,
/// `D`/`DD` the day, `h`, `m`, `s` the hour, minute and second (two digits),
/// `W` the day of the week, `Z` the offset from UTC; `\` escapes a letter or
/// itself; everything else is copied.
pub fn format_time(fmt_str: &str, p: &DateParts) -> (r: String)
    ensures
        r@ == spec_format_time(fmt_str@, *p),
{
    let f = to_chars(fmt_str);
    let mut st = DateFmtState::Relax;
    let mut out: Vec<char> = Vec::new();
    let mut i: usize = 0;
    while i < f.len()
        invariant
            i <= f@.len(),
            f@ == fmt_str@,
            fmt_scan(f@, i as int, *p) == (st, out@),
        decreases f@.len() - i,
    {
        let c = f[i];
        let ghost out0 = out@;
        if c == '\\' {
            if st == DateFmtState::Esc {
                out.push('\\');
                st = DateFmtState::Relax;
                assert(out@ =~= out0 + seq!['\\']);
            } else {
                let m = mask_exec(st, p);
                append_chars(&mut out, &m);
                st = DateFmtState::Esc;
            }
        } else {
            match letter_states_exec(c) {
                Some((one, two_, three)) => {
                    if st == DateFmtState::Esc {
                        out.push(c);
                        st = DateFmtState::Relax;
                        assert(out@ =~= out0 + seq![c]);
                    } else if st == DateFmtState::Relax {
                        st = one;
                        assert(out@ =~= out0 + seq![]);
                    } else if st == one && one != two_ {
                        st = two_;
                        assert(out@ =~= out0 + seq![]);
                    } else if st == two_ && two_ != three && one != two_ {
                        st = three;
                        assert(out@ =~= out0 + seq![]);
                    } else {
                        let m = mask_exec(st, p);
                        append_chars(&mut out, &m);
                        st = one;
                    }
                },
                None => {
                    let m = mask_exec(st, p);
                    append_chars(&mut out, &m);
                    out.push(c);
                    st = DateFmtState::Relax;
                    assert(out@ =~= out0 + m@.push(c));
                },
            }
        }
        i += 1;
    }
    let m = mask_exec(st, p);
    append_chars(&mut out, &m);
    string_from_chars(&out)
}

/// The time `p` as `YYYYMMDDThhmmssZ`.
pub fn format_system_time(p: &DateParts) -> (r: String)
    ensures
        r@ == spec_format_system_time(*p),
{
    let mut out = two_exec(p.year);
    append_chars(&mut out, &two_exec(p.month));
    append_chars(&mut out, &two_exec(p.day));
    out.push('T');
    append_chars(&mut out, &two_exec(p.hour));
    append_chars(&mut out, &two_exec(p.minute));
    append_chars(&mut out, &two_exec(p.second));
    out.push('Z');
    string_from_chars(&out)
}


/// The twelve month names are three letters each and pairwise distinct, so
/// `MMM` tells every month apart; months outside `1..=12` get none of the
/// names of other months but December's.
pub proof fn law_month_names_distinct(a: int, b: int)
    requires
        1 <= a <= 12,
        1 <= b <= 12,
        a != b,
    ensures
        short_month(a).len() == 3,
        short_month(a) != short_month(b),
{
    reveal_strlit("Jan");
    reveal_strlit("Feb");
    reveal_strlit("Mar");
    reveal_strlit("Apr");
    reveal_strlit("May");
    reveal_strlit("Jun");
    reveal_strlit("Jul");
    reveal_strlit("Aug");
    reveal_strlit("Sep");
    reveal_strlit("Oct");
    reveal_strlit("Nov");
    reveal_strlit("Dec");
    let sa = short_month(a);
    let sb = short_month(b);
    if sa == sb {
        assert(sa[0] == sb[0] && sa[1] == sb[1] && sa[2] == sb[2]);
    }
}

} // verus!
