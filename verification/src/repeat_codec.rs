//! Codec for the persisted recurrence column.
//!
//! A recurrence rule is stored as one line of JSON in the canonical form the
//! service writes: a `type` tag in snake case, the weekly day list as an
//! array of three-letter day names, and the custom interval as a decimal
//! number — no spaces, fields in this order.  The decoder accepts exactly
//! the canonical form and nothing else, so decoding is stated as an
//! inverse of encoding.

use vstd::prelude::*;
use vstd::string::*;
use crate::models::{RepeatRule, RepeatType, Weekday};
use crate::text::push_char;
use crate::time::{digit_val, is_digit_char};

verus! {

/// The stored three-letter name of a weekday.
pub open spec fn day_word(d: Weekday) -> Seq<char> {
    match d {
        Weekday::Mon => "Mon"@,
        Weekday::Tue => "Tue"@,
        Weekday::Wed => "Wed"@,
        Weekday::Thu => "Thu"@,
        Weekday::Fri => "Fri"@,
        Weekday::Sat => "Sat"@,
        Weekday::Sun => "Sun"@,
    }
}

/// A string in JSON quotes.
pub open spec fn quoted(s: Seq<char>) -> Seq<char> {
    "\""@ + s + "\""@
}

/// The decimal digits of a non-negative number, most significant first.
pub open spec fn dec_digits(n: int) -> Seq<char>
    decreases n,
{
    if n < 10 {
        seq![digit_char(n)]
    } else {
        dec_digits(n / 10) + seq![digit_char(n % 10)]
    }
}

/// The digit character of one digit value.
pub open spec fn digit_char(d: int) -> char {
    if d == 0 { '0' }
    else if d == 1 { '1' }
    else if d == 2 { '2' }
    else if d == 3 { '3' }
    else if d == 4 { '4' }
    else if d == 5 { '5' }
    else if d == 6 { '6' }
    else if d == 7 { '7' }
    else if d == 8 { '8' }
    else if d == 9 { '9' }
    else { '?' }
}

/// The numeric value of a digit string, most significant first.
pub open spec fn digits_value(s: Seq<char>) -> int
    decreases s.len(),
{
    if s.len() == 0 {
        0
    } else {
        digits_value(s.drop_last()) * 10 + digit_val(s.last())
    }
}

/// The encoded day array items: quoted day names joined by commas.
pub open spec fn days_list(days: Seq<Weekday>) -> Seq<char>
    decreases days.len(),
{
    if days.len() == 0 {
        Seq::empty()
    } else if days.len() == 1 {
        quoted(day_word(days[0]))
    } else {
        quoted(day_word(days[0])) + ","@ + days_list(days.drop_first())
    }
}

/// The canonical stored encoding of a recurrence rule.
pub open spec fn encode_rule(rule: RepeatRule) -> Seq<char> {
    match rule {
        RepeatRule::Once => "{\"type\":\"once\"}"@,
        RepeatRule::Daily => "{\"type\":\"daily\"}"@,
        RepeatRule::Weekdays => "{\"type\":\"weekdays\"}"@,
        RepeatRule::Weekends => "{\"type\":\"weekends\"}"@,
        RepeatRule::Weekly { days } => "{\"type\":\"weekly\",\"days\":["@ + days_list(days)
            + "]}"@,
        RepeatRule::Custom { interval_minutes } => "{\"type\":\"custom\",\"interval_minutes\":"@
            + dec_digits(interval_minutes as int) + "}"@,
    }
}

/// Appending one day at the end of a list appends one comma-separated item.
proof fn lemma_days_list_snoc(days: Seq<Weekday>, d: Weekday)
    requires
        days.len() >= 1,
    ensures
        days_list(days.push(d)) == days_list(days) + ","@ + quoted(day_word(d)),
    decreases days.len(),
{
    if days.len() == 1 {
        assert(days.push(d).drop_first() =~= seq![d]);
        assert(days.push(d)[0] == days[0]);
        assert(days_list(seq![d]) == quoted(day_word(d)));
        assert(days_list(days.push(d)) =~= days_list(days) + ","@ + quoted(day_word(d)));
    } else {
        lemma_days_list_snoc(days.drop_first(), d);
        assert(days.push(d).drop_first() =~= days.drop_first().push(d));
        assert(days.push(d)[0] == days[0]);
        assert(days_list(days.push(d)) =~= days_list(days) + ","@ + quoted(day_word(d)));
    }
}

/// Writes the decimal digits of a number at the end of a string.
pub fn append_decimal(out: &mut String, n: u32)
    ensures
        final(out)@ == old(out)@ + dec_digits(n as int),
    decreases n,
{
    if n < 10 {
        push_char(out, digit_char_of(n as u8));
        assert(out@ =~= old(out)@ + dec_digits(n as int));
    } else {
        assert(n / 10 < n) by {
            vstd::arithmetic::div_mod::lemma_div_is_ordered_by_denominator(n as int, 1, 10);
        };
        append_decimal(out, n / 10);
        push_char(out, digit_char_of((n % 10) as u8));
        assert(out@ =~= old(out)@ + dec_digits(n as int));
    }
}

/// Computes the digit character of one digit value.
fn digit_char_of(d: u8) -> (c: char)
    requires
        d <= 9,
    ensures
        c == digit_char(d as int),
{
    match d {
        0 => '0',
        1 => '1',
        2 => '2',
        3 => '3',
        4 => '4',
        5 => '5',
        6 => '6',
        7 => '7',
        8 => '8',
        _ => '9',
    }
}

/// Writes the stored name of a weekday at the end of a string.
fn append_day_word(out: &mut String, d: &Weekday)
    ensures
        final(out)@ == old(out)@ + day_word(*d),
{
    match d {
        Weekday::Mon => out.append("Mon"),
        Weekday::Tue => out.append("Tue"),
        Weekday::Wed => out.append("Wed"),
        Weekday::Thu => out.append("Thu"),
        Weekday::Fri => out.append("Fri"),
        Weekday::Sat => out.append("Sat"),
        Weekday::Sun => out.append("Sun"),
    }
}

/// Encodes a recurrence rule in its canonical stored form.
pub fn encode_repeat_type(rt: &RepeatType) -> (r: String)
    ensures
        r@ == encode_rule(rt@),
{
    match rt {
        RepeatType::Once => {
            let mut out = String::new();
            out.append("{\"type\":\"once\"}");
            assert(out@ =~= encode_rule(rt@));
            out
        },
        RepeatType::Daily => {
            let mut out = String::new();
            out.append("{\"type\":\"daily\"}");
            assert(out@ =~= encode_rule(rt@));
            out
        },
        RepeatType::Weekdays => {
            let mut out = String::new();
            out.append("{\"type\":\"weekdays\"}");
            assert(out@ =~= encode_rule(rt@));
            out
        },
        RepeatType::Weekends => {
            let mut out = String::new();
            out.append("{\"type\":\"weekends\"}");
            assert(out@ =~= encode_rule(rt@));
            out
        },
        RepeatType::Weekly { days } => {
            let mut out = String::new();
            out.append("{\"type\":\"weekly\",\"days\":[");
            let ghost prefix = out@;
            let mut i: usize = 0;
            while i < days.len()
                invariant
                    0 <= i <= days@.len(),
                    out@ == prefix + days_list(days@.subrange(0, i as int)),
                decreases days@.len() - i,
            {
                if i > 0 {
                    out.append(",");
                }
                out.append("\"");
                append_day_word(&mut out, &days[i]);
                out.append("\"");
                proof {
                    let prev = days@.subrange(0, i as int);
                    let cur = days@.subrange(0, i + 1 as int);
                    assert(cur =~= prev.push(days@[i as int]));
                    if i == 0 {
                        assert(days_list(cur) =~= quoted(day_word(days@[0])));
                        assert(out@ =~= prefix + days_list(cur));
                    } else {
                        lemma_days_list_snoc(prev, days@[i as int]);
                        assert(out@ =~= prefix + days_list(cur));
                    }
                }
                i += 1;
            }
            out.append("]}");
            proof {
                assert(days@.subrange(0, days@.len() as int) =~= days@);
                assert(out@ =~= encode_rule(rt@));
            }
            out
        },
        RepeatType::Custom { interval_minutes } => {
            let mut out = String::new();
            out.append("{\"type\":\"custom\",\"interval_minutes\":");
            append_decimal(&mut out, *interval_minutes);
            out.append("}");
            assert(out@ =~= encode_rule(rt@));
            out
        },
    }
}

/// The stored name of every weekday has three characters.
proof fn lemma_day_word_len(d: Weekday)
    ensures
        day_word(d).len() == 3,
{
    match d {
        Weekday::Mon => reveal_strlit("Mon"),
        Weekday::Tue => reveal_strlit("Tue"),
        Weekday::Wed => reveal_strlit("Wed"),
        Weekday::Thu => reveal_strlit("Thu"),
        Weekday::Fri => reveal_strlit("Fri"),
        Weekday::Sat => reveal_strlit("Sat"),
        Weekday::Sun => reveal_strlit("Sun"),
    }
}

/// Shape of an encoded day list: five-character quoted items at multiples
/// of six, separated by commas.
proof fn lemma_days_list_shape(days: Seq<Weekday>)
    ensures
        days.len() == 0 ==> days_list(days).len() == 0,
        days.len() >= 1 ==> days_list(days).len() == 6 * days.len() - 1,
        forall|i: int|
            0 <= i < days.len() ==> days_list(days).subrange(6 * i, 6 * i + 5) == quoted(
                day_word(#[trigger] days[i]),
            ),
        forall|i: int| 0 <= i < days.len() - 1 ==> days_list(days)[#[trigger] (6 * i + 5)] == ',',
    decreases days.len(),
{
    reveal_strlit("\"");
    reveal_strlit(",");
    if days.len() == 0 {
    } else if days.len() == 1 {
        lemma_day_word_len(days[0]);
        assert(days_list(days).subrange(0, 5) =~= quoted(day_word(days[0])));
    } else {
        let rest = days.drop_first();
        lemma_days_list_shape(rest);
        lemma_day_word_len(days[0]);
        let q = quoted(day_word(days[0]));
        let whole = days_list(days);
        assert(whole == q + ","@ + days_list(rest));
        assert(whole.len() == 6 * days.len() - 1);
        assert forall|i: int| 0 <= i < days.len() implies whole.subrange(6 * i, 6 * i + 5)
            == quoted(day_word(#[trigger] days[i])) by {
            lemma_day_word_len(days[i]);
            if i == 0 {
                assert(whole.subrange(0, 5) =~= q);
            } else {
                assert(rest[i - 1] == days[i]);
                lemma_day_word_len(rest[i - 1]);
                assert(days_list(rest).subrange(6 * (i - 1), 6 * (i - 1) + 5) == quoted(
                    day_word(rest[i - 1]),
                ));
                assert(whole.subrange(6 * i, 6 * i + 5) =~= days_list(rest).subrange(
                    6 * (i - 1),
                    6 * (i - 1) + 5,
                ));
            }
        };
        assert forall|i: int| 0 <= i < days.len() - 1 implies whole[#[trigger] (6 * i + 5)] == ',' by {
            if i == 0 {
                assert(whole[5] == ","@[0]);
            } else {
                assert(whole[6 * i + 5] == days_list(rest)[6 * (i - 1) + 5]);
            }
        };
    }
}

/// Every decimal rendering is nonempty, all digits, has no leading zero,
/// and denotes the rendered number.
proof fn lemma_dec_digits_props(n: int)
    requires
        0 <= n,
    ensures
        dec_digits(n).len() >= 1,
        forall|i: int| 0 <= i < dec_digits(n).len() ==> is_digit_char(#[trigger] dec_digits(n)[i]),
        digits_value(dec_digits(n)) == n,
        dec_digits(n).len() > 1 ==> dec_digits(n)[0] != '0',
        n >= 10 ==> dec_digits(n).len() >= 2,
    decreases n,
{
    if n < 10 {
        let t = dec_digits(n);
        assert(t =~= seq![digit_char(n)]);
        assert(t.len() == 1);
        assert(t.last() == digit_char(n));
        assert(t.drop_last() =~= Seq::<char>::empty());
        assert(digits_value(t.drop_last()) == 0);
        assert(digits_value(t) == digits_value(t.drop_last()) * 10 + digit_val(t.last()));
    } else {
        vstd::arithmetic::div_mod::lemma_fundamental_div_mod(n, 10);
        vstd::arithmetic::div_mod::lemma_mod_bound(n, 10);
        assert(n / 10 < n) by {
            vstd::arithmetic::div_mod::lemma_div_is_strictly_smaller(n, 10);
        };
        lemma_dec_digits_props(n / 10);
        let w = dec_digits(n / 10);
        let c = digit_char(n % 10);
        let t = dec_digits(n);
        assert(t == w + seq![c]);
        assert(t.drop_last() =~= w);
        assert(t.last() == c);
        assert(digits_value(t) == digits_value(w) * 10 + digit_val(c));
        assert(t[0] == w[0]);
        assert(n / 10 >= 1);
        if w.len() == 1 {
            assert(w[0] == digit_char(n / 10));
        }
    }
}

/// The value of a digit string is non-negative.
proof fn lemma_digits_value_nonneg(t: Seq<char>)
    requires
        forall|i: int| 0 <= i < t.len() ==> is_digit_char(#[trigger] t[i]),
    ensures
        digits_value(t) >= 0,
    decreases t.len(),
{
    if t.len() > 0 {
        let p = t.drop_last();
        assert(forall|i: int| 0 <= i < p.len() ==> is_digit_char(#[trigger] p[i]));
        lemma_digits_value_nonneg(p);
    }
}

/// A canonical digit string is the rendering of its value.
proof fn lemma_canonical_digits(t: Seq<char>)
    requires
        t.len() >= 1,
        forall|i: int| 0 <= i < t.len() ==> is_digit_char(#[trigger] t[i]),
        t.len() > 1 ==> t[0] != '0',
    ensures
        digits_value(t) >= 0,
        dec_digits(digits_value(t)) == t,
        t.len() > 1 ==> digits_value(t) >= 10,
    decreases t.len(),
{
    lemma_digits_value_nonneg(t);
    if t.len() == 1 {
        let v = digits_value(t);
        assert(t.drop_last() =~= Seq::<char>::empty());
        assert(digits_value(t.drop_last()) == 0);
        assert(t.last() == t[0]);
        assert(v == digits_value(t.drop_last()) * 10 + digit_val(t.last()));
        assert(v == digit_val(t[0]));
        assert(dec_digits(v) =~= t);
    } else {
        let p = t.drop_last();
        assert(forall|i: int| 0 <= i < p.len() ==> is_digit_char(#[trigger] p[i]));
        assert(p[0] == t[0]);
        lemma_canonical_digits(p);
        let vp = digits_value(p);
        let d = digit_val(t.last());
        let v = digits_value(t);
        assert(v == vp * 10 + d);
        assert(0 <= d < 10);
        if p.len() == 1 {
            assert(p.drop_last() =~= Seq::<char>::empty());
            assert(digits_value(p.drop_last()) == 0);
            assert(p.last() == p[0]);
            assert(vp == digits_value(p.drop_last()) * 10 + digit_val(p.last()));
            assert(vp == digit_val(p[0]));
            assert(vp >= 1);
        }
        assert(vp >= 1);
        vstd::arithmetic::div_mod::lemma_fundamental_div_mod_converse(v, 10, vp, d);
        assert(v / 10 == vp && v % 10 == d);
        assert(v >= 10);
        assert(dec_digits(v) == dec_digits(vp) + seq![digit_char(d)]);
        assert(dec_digits(v) =~= t);
    }
}

/// A digit string's value is at least the value of each of its prefixes.
pub proof fn lemma_digits_value_prefix_mono(t: Seq<char>, i: int)
    requires
        0 <= i <= t.len(),
        forall|j: int| 0 <= j < t.len() ==> is_digit_char(#[trigger] t[j]),
    ensures
        digits_value(t.subrange(0, i)) <= digits_value(t),
    decreases t.len() - i,
{
    if i < t.len() {
        lemma_digits_value_prefix_mono(t, i + 1);
        let a = t.subrange(0, i);
        let b = t.subrange(0, i + 1);
        assert(b.drop_last() =~= a);
        assert(b.last() == t[i]);
        assert(forall|j: int| 0 <= j < a.len() ==> is_digit_char(#[trigger] a[j]));
        lemma_digits_value_nonneg(a);
        assert(digits_value(b) == digits_value(a) * 10 + digit_val(t[i]));
    } else {
        assert(t.subrange(0, i) =~= t);
    }
}

/// Compares a window of a string against an expected string.
fn match_at(s: &str, pos: usize, w: &str) -> (r: bool)
    requires
        pos + w@.len() <= s@.len(),
        s@.len() <= usize::MAX,
    ensures
        r == (s@.subrange(pos as int, pos + w@.len()) == w@),
{
    let wn = w.unicode_len();
    let mut i: usize = 0;
    while i < wn
        invariant
            pos + wn <= s@.len(),
            s@.len() <= usize::MAX,
            w@.len() == wn,
            0 <= i <= wn,
            forall|j: int| 0 <= j < i ==> s@[pos + j] == w@[j],
        decreases wn - i,
    {
        if s.get_char(pos + i) != w.get_char(i) {
            proof {
                assert(s@.subrange(pos as int, pos + w@.len())[i as int] == s@[pos + i]);
            }
            return false;
        }
        i += 1;
    }
    proof {
        assert(s@.subrange(pos as int, pos + w@.len()) =~= w@);
    }
    true
}

/// Maps three characters to the weekday whose stored name they spell.
fn day_from_chars(c1: char, c2: char, c3: char) -> (r: Option<Weekday>)
    ensures
        match r {
            Some(d) => seq![c1, c2, c3] == day_word(d),
            None => forall|d: Weekday| seq![c1, c2, c3] != day_word(d),
        },
{
    proof {
        reveal_strlit("Mon");
        reveal_strlit("Tue");
        reveal_strlit("Wed");
        reveal_strlit("Thu");
        reveal_strlit("Fri");
        reveal_strlit("Sat");
        reveal_strlit("Sun");
    }
    if c1 == 'M' && c2 == 'o' && c3 == 'n' {
        proof {
            assert(seq![c1, c2, c3] =~= "Mon"@);
        }
        Some(Weekday::Mon)
    } else if c1 == 'T' && c2 == 'u' && c3 == 'e' {
        proof {
            assert(seq![c1, c2, c3] =~= "Tue"@);
        }
        Some(Weekday::Tue)
    } else if c1 == 'W' && c2 == 'e' && c3 == 'd' {
        proof {
            assert(seq![c1, c2, c3] =~= "Wed"@);
        }
        Some(Weekday::Wed)
    } else if c1 == 'T' && c2 == 'h' && c3 == 'u' {
        proof {
            assert(seq![c1, c2, c3] =~= "Thu"@);
        }
        Some(Weekday::Thu)
    } else if c1 == 'F' && c2 == 'r' && c3 == 'i' {
        proof {
            assert(seq![c1, c2, c3] =~= "Fri"@);
        }
        Some(Weekday::Fri)
    } else if c1 == 'S' && c2 == 'a' && c3 == 't' {
        proof {
            assert(seq![c1, c2, c3] =~= "Sat"@);
        }
        Some(Weekday::Sat)
    } else if c1 == 'S' && c2 == 'u' && c3 == 'n' {
        proof {
            assert(seq![c1, c2, c3] =~= "Sun"@);
        }
        Some(Weekday::Sun)
    } else {
        proof {
            assert forall|d: Weekday| seq![c1, c2, c3] != day_word(d) by {
                lemma_day_word_len(d);
                if seq![c1, c2, c3] == day_word(d) {
                    assert(c1 == day_word(d)[0] && c2 == day_word(d)[1] && c3 == day_word(d)[2]);
                }
            };
        }
        None
    }
}

/// Parses the window between the day-array brackets as an encoded day
/// list: exactly when the window is `days_list` of some list, that list.
fn parse_days(s: &str, start: usize, end: usize) -> (r: Option<Vec<Weekday>>)
    requires
        start <= end <= s@.len(),
        s@.len() <= usize::MAX,
    ensures
        match r {
            Some(days) => s@.subrange(start as int, end as int) == days_list(days@),
            None => forall|days: Seq<Weekday>|
                s@.subrange(start as int, end as int) != days_list(days),
        },
{
    let ghost m = s@.subrange(start as int, end as int);
    let mlen = end - start;
    if mlen == 0 {
        let days: Vec<Weekday> = Vec::new();
        proof {
            assert(m =~= days_list(days@));
        }
        return Some(days);
    }
    if mlen % 6 != 5 {
        proof {
            assert forall|days: Seq<Weekday>| m != days_list(days) by {
                lemma_days_list_shape(days);
                if days.len() >= 1 && m == days_list(days) {
                    vstd::arithmetic::div_mod::lemma_fundamental_div_mod_converse(
                        mlen as int,
                        6,
                        days.len() as int - 1,
                        5,
                    );
                }
            };
        }
        return None;
    }
    let k = mlen / 6 + 1;
    assert(mlen == 6 * k - 1) by {
        vstd::arithmetic::div_mod::lemma_fundamental_div_mod(mlen as int, 6);
    };
    assert(k >= 1);
    let mut acc: Vec<Weekday> = Vec::new();
    let mut i: usize = 0;
    while i < k
        invariant
            start <= end <= s@.len(),
            m == s@.subrange(start as int, end as int),
            end - start == 6 * k - 1,
            k >= 1,
            0 <= i <= k,
            acc@.len() == i,
            i >= 1 ==> m.subrange(0, 6 * i - 1) == days_list(acc@),
            i >= 1 && i < k ==> m[6 * i - 1] == ',',
        decreases k - i,
    {
        let base = start + 6 * i;
        let q1 = s.get_char(base);
        let c1 = s.get_char(base + 1);
        let c2 = s.get_char(base + 2);
        let c3 = s.get_char(base + 3);
        let q2 = s.get_char(base + 4);
        proof {
            assert(m[6 * i] == s@[base as int]);
            assert(m[6 * i + 1] == s@[base + 1]);
            assert(m[6 * i + 2] == s@[base + 2]);
            assert(m[6 * i + 3] == s@[base + 3]);
            assert(m[6 * i + 4] == s@[base + 4]);
        }
        if q1 != '"' || q2 != '"' {
            proof {
                reveal_strlit("\"");
                assert forall|days: Seq<Weekday>| m != days_list(days) by {
                    lemma_days_list_shape(days);
                    if m == days_list(days) {
                        assert(days.len() == k);
                        let item = days_list(days).subrange(6 * i, 6 * i + 5);
                        lemma_day_word_len(days[i as int]);
                        assert(item[0] == m[6 * i] && item[4] == m[6 * i + 4]);
                        assert(item == quoted(day_word(days[i as int])));
                        assert(item[0] == '"' && item[4] == '"');
                    }
                };
            }
            return None;
        }
        let day = match day_from_chars(c1, c2, c3) {
            Some(day) => day,
            None => {
                proof {
                    reveal_strlit("\"");
                    assert forall|days: Seq<Weekday>| m != days_list(days) by {
                        lemma_days_list_shape(days);
                        if m == days_list(days) {
                            assert(days.len() == k);
                            let item = days_list(days).subrange(6 * i, 6 * i + 5);
                            lemma_day_word_len(days[i as int]);
                            assert(item == quoted(day_word(days[i as int])));
                            assert(item[1] == day_word(days[i as int])[0]);
                            assert(item[2] == day_word(days[i as int])[1]);
                            assert(item[3] == day_word(days[i as int])[2]);
                            assert(seq![c1, c2, c3] =~= day_word(days[i as int]));
                        }
                    };
                }
                return None;
            },
        };
        if i < k - 1 {
            let sep = s.get_char(base + 5);
            proof {
                assert(m[6 * i + 5] == s@[base + 5]);
            }
            if sep != ',' {
                proof {
                    assert forall|days: Seq<Weekday>| m != days_list(days) by {
                        lemma_days_list_shape(days);
                        if m == days_list(days) {
                            assert(days.len() == k);
                        }
                    };
                }
                return None;
            }
        }
        let ghost old_acc = acc@;
        acc.push(day);
        proof {
            reveal_strlit("\"");
            reveal_strlit(",");
            lemma_day_word_len(day);
            assert(acc@ == old_acc.push(day));
            assert(acc@.drop_last() =~= old_acc);
            assert(acc@.last() == day);
            if i == 0 {
                assert(acc@ =~= seq![day]);
                assert(m.subrange(0, 5) =~= quoted(day_word(day)));
                assert(days_list(acc@) == quoted(day_word(acc@[0])));
                assert(m.subrange(0, 6 * (i + 1) - 1) == days_list(acc@));
            } else {
                lemma_days_list_snoc(old_acc, day);
                assert(m.subrange(0, 6 * (i + 1) - 1) =~= m.subrange(0, 6 * i - 1) + ","@
                    + quoted(day_word(day)));
                assert(days_list(acc@) == days_list(old_acc) + ","@ + quoted(day_word(day)));
                assert(m.subrange(0, 6 * (i + 1) - 1) == days_list(acc@));
            }
        }
        i += 1;
    }
    proof {
        assert(m.subrange(0, 6 * k - 1) =~= m);
    }
    Some(acc)
}


/// Compares a whole string against an expected string.
fn match_exact(s: &str, n: usize, w: &str) -> (r: bool)
    requires
        n == s@.len(),
    ensures
        r == (s@ == w@),
{
    let wn = w.unicode_len();
    if n != wn {
        return false;
    }
    let r = match_at(s, 0, w);
    proof {
        assert(s@.subrange(0, w@.len() as int) =~= s@);
    }
    r
}

/// Computes the numeric value of one digit character.
pub fn digit_of(c: char) -> (d: u8)
    requires
        is_digit_char(c),
    ensures
        d == digit_val(c),
{
    match c {
        '0' => 0,
        '1' => 1,
        '2' => 2,
        '3' => 3,
        '4' => 4,
        '5' => 5,
        '6' => 6,
        '7' => 7,
        '8' => 8,
        _ => 9,
    }
}

/// Facts about a hypothetical encoding of the two parameterised forms:
/// their prefixes, suffixes, bodies and lengths are fixed.
proof fn decode_refute(s: Seq<char>, rule: RepeatRule, n: int)
    requires
        n == s.len(),
    ensures
        (match rule {
            RepeatRule::Weekly { days } => s == encode_rule(rule) ==> {
                &&& n == 27 + days_list(days).len()
                &&& n >= 27
                &&& s.subrange(0, 25) == "{\"type\":\"weekly\",\"days\":["@
                &&& s.subrange(n - 2, n) == "]}"@
                &&& s.subrange(25, n - 2) == days_list(days)
            },
            RepeatRule::Custom { interval_minutes } => s == encode_rule(rule) ==> {
                &&& n == 37 + dec_digits(interval_minutes as int).len()
                &&& n >= 38
                &&& s.subrange(0, 36) == "{\"type\":\"custom\",\"interval_minutes\":"@
                &&& s.subrange(n - 1, n) == "}"@
                &&& s.subrange(36, n - 1) == dec_digits(interval_minutes as int)
            },
            _ => true,
        }),
{
    reveal_strlit("{\"type\":\"weekly\",\"days\":[");
    reveal_strlit("{\"type\":\"custom\",\"interval_minutes\":");
    reveal_strlit("]}");
    reveal_strlit("}");
    match rule {
        RepeatRule::Weekly { days } => {
            if s == encode_rule(rule) {
                lemma_days_list_shape(days);
                let body = days_list(days);
                assert(s == "{\"type\":\"weekly\",\"days\":["@ + body + "]}"@);
                assert(s.subrange(0, 25) =~= "{\"type\":\"weekly\",\"days\":["@);
                assert(s.subrange(n - 2, n) =~= "]}"@);
                assert(s.subrange(25, n - 2) =~= body);
            }
        },
        RepeatRule::Custom { interval_minutes } => {
            if s == encode_rule(rule) {
                lemma_dec_digits_props(interval_minutes as int);
                let body = dec_digits(interval_minutes as int);
                assert(s == "{\"type\":\"custom\",\"interval_minutes\":"@ + body + "}"@);
                assert(s.subrange(0, 36) =~= "{\"type\":\"custom\",\"interval_minutes\":"@);
                assert(s.subrange(n - 1, n) =~= "}"@);
                assert(s.subrange(36, n - 1) =~= body);
            }
        },
        _ => {},
    }
}

/// Decodes the canonical stored form of a recurrence rule.  Exactly the
/// strings the encoder produces are accepted: decoding returns the rule a
/// string encodes, and nothing on every other string, so a rule that is
/// encoded and then decoded comes back identically.
pub fn decode_repeat_type(s: &str) -> (r: Option<RepeatType>)
    ensures
        match r {
            Some(rt) => s@ == encode_rule(rt@),
            None => forall|rule: RepeatRule| s@ != encode_rule(rule),
        },
{
    let n = s.unicode_len();
    if match_exact(s, n, "{\"type\":\"once\"}") {
        return Some(RepeatType::Once);
    }
    if match_exact(s, n, "{\"type\":\"daily\"}") {
        return Some(RepeatType::Daily);
    }
    if match_exact(s, n, "{\"type\":\"weekdays\"}") {
        return Some(RepeatType::Weekdays);
    }
    if match_exact(s, n, "{\"type\":\"weekends\"}") {
        return Some(RepeatType::Weekends);
    }
    let wpre = "{\"type\":\"weekly\",\"days\":[";
    let cpre = "{\"type\":\"custom\",\"interval_minutes\":";
    proof {
        reveal_strlit("{\"type\":\"weekly\",\"days\":[");
        reveal_strlit("{\"type\":\"custom\",\"interval_minutes\":");
        reveal_strlit("]}");
        reveal_strlit("}");
    }
    let wn = wpre.unicode_len();
    let cn = cpre.unicode_len();
    let w_ok = n >= wn + 2 && match_at(s, 0, wpre);
    let c_ok = n >= cn + 2 && match_at(s, 0, cpre);
    proof {
        if w_ok {
            assert(s@.subrange(0, 25) == wpre@);
        }
        if c_ok {
            assert(s@.subrange(0, 36) == cpre@);
        }
    }
    if w_ok {
        if match_at(s, n - 2, "]}") {
            match parse_days(s, wn, n - 2) {
                Some(days) => {
                    proof {
                        assert(s@ =~= s@.subrange(0, wn as int) + s@.subrange(
                            wn as int,
                            n - 2 as int,
                        ) + s@.subrange(n - 2 as int, n as int));
                        assert(s@ =~= encode_rule(RepeatRule::Weekly { days: days@ }));
                    }
                    return Some(RepeatType::Weekly { days });
                },
                None => {
                    proof {
                        assert forall|rule: RepeatRule| s@ != encode_rule(rule) by {
                            decode_refute(s@, rule, n as int);
                            if s@ == encode_rule(rule) {
                                match rule {
                                    RepeatRule::Custom { interval_minutes } => {
                                        assert(s@.subrange(0, 25)[9] == s@[9]);
                                        assert(s@.subrange(0, 36)[9] == s@[9]);
                                    },
                                    _ => {},
                                }
                            }
                        };
                    }
                    return None;
                },
            }
        } else {
            proof {
                assert forall|rule: RepeatRule| s@ != encode_rule(rule) by {
                    decode_refute(s@, rule, n as int);
                    if s@ == encode_rule(rule) {
                        match rule {
                            RepeatRule::Weekly { days } => {
                                assert(s@.subrange(n - 2, n as int) == "]}"@);
                            },
                            RepeatRule::Custom { interval_minutes } => {
                                assert(s@.subrange(0, 25)[9] == s@[9]);
                                assert(s@.subrange(0, 36)[9] == s@[9]);
                            },
                            _ => {},
                        }
                    }
                };
            }
            return None;
        }
    }
    if c_ok {
        if !match_at(s, n - 1, "}") {
            proof {
                assert forall|rule: RepeatRule| s@ != encode_rule(rule) by {
                    decode_refute(s@, rule, n as int);
                    if s@ == encode_rule(rule) {
                        match rule {
                            RepeatRule::Weekly { days } => {
                                assert(s@.subrange(0, 25)[9] == s@[9]);
                                assert(s@.subrange(0, 36)[9] == s@[9]);
                            },
                            RepeatRule::Custom { interval_minutes } => {
                                assert(s@.subrange(n - 1, n as int) == "}"@);
                            },
                            _ => {},
                        }
                    }
                };
            }
            return None;
        }
        match parse_u32_canonical(s, cn, n - 1) {
            Some(value) => {
                proof {
                    assert(s@ =~= s@.subrange(0, cn as int) + s@.subrange(cn as int, n - 1)
                        + s@.subrange(n - 1, n as int));
                    assert(s@ =~= encode_rule(RepeatRule::Custom { interval_minutes: value }));
                }
                return Some(RepeatType::Custom { interval_minutes: value });
            },
            None => {
                proof {
                    assert forall|rule: RepeatRule| s@ != encode_rule(rule) by {
                        decode_refute(s@, rule, n as int);
                        if s@ == encode_rule(rule) {
                            match rule {
                                RepeatRule::Weekly { days } => {
                                    assert(s@.subrange(0, 25)[9] == s@[9]);
                                    assert(s@.subrange(0, 36)[9] == s@[9]);
                                },
                                _ => {},
                            }
                        }
                    };
                }
                return None;
            },
        }
    }
    proof {
        assert forall|rule: RepeatRule| s@ != encode_rule(rule) by {
            decode_refute(s@, rule, n as int);
        };
    }
    None
}

/// Parses a window of a string as the canonical decimal rendering of a
/// 32-bit number: exactly when the window is `dec_digits` of some number,
/// that number.
fn parse_u32_canonical(s: &str, start: usize, end: usize) -> (r: Option<u32>)
    requires
        start < end <= s@.len() <= usize::MAX,
    ensures
        match r {
            Some(v) => s@.subrange(start as int, end as int) == dec_digits(v as int),
            None => forall|v: u32|
                s@.subrange(start as int, end as int) != dec_digits(v as int),
        },
{
    let ghost t = s@.subrange(start as int, end as int);
    let mut i: usize = start;
    while i < end
        invariant
            start <= i <= end <= s@.len() <= usize::MAX,
            t == s@.subrange(start as int, end as int),
            forall|j: int| start <= j < i ==> is_digit_char(#[trigger] s@[j]),
        decreases end - i,
    {
        let c = s.get_char(i);
        if !(c >= '0' && c <= '9') {
            proof {
                assert forall|v: u32| t != dec_digits(v as int) by {
                    lemma_dec_digits_props(v as int);
                    if t == dec_digits(v as int) {
                        assert(is_digit_char(t[i - start]));
                        assert(t[i - start] == s@[i as int]);
                    }
                };
            }
            return None;
        }
        i += 1;
    }
    assert(forall|j: int| 0 <= j < t.len() ==> is_digit_char(#[trigger] t[j]));
    if end - start > 1 {
        let first = s.get_char(start);
        if first == '0' {
            proof {
                assert forall|v: u32| t != dec_digits(v as int) by {
                    lemma_dec_digits_props(v as int);
                    if t == dec_digits(v as int) {
                        assert(t[0] == s@[start as int]);
                    }
                };
            }
            return None;
        }
    }
    let mut acc: u64 = 0;
    let mut i: usize = start;
    while i < end
        invariant
            start <= i <= end <= s@.len() <= usize::MAX,
            t == s@.subrange(start as int, end as int),
            forall|j: int| start <= j < end ==> is_digit_char(#[trigger] s@[j]),
            forall|j: int| 0 <= j < t.len() ==> is_digit_char(#[trigger] t[j]),
            acc == digits_value(t.subrange(0, i - start)),
            acc <= u32::MAX,
        decreases end - i,
    {
        let c = s.get_char(i);
        let d = digit_of(c);
        proof {
            let a = t.subrange(0, i - start);
            let b = t.subrange(0, i + 1 - start);
            assert(b.drop_last() =~= a);
            assert(b.last() == t[i - start]);
            assert(t[i - start] == s@[i as int]);
        }
        acc = acc * 10 + (d as u64);
        if acc > 0xffff_ffff {
            proof {
                assert forall|v: u32| t != dec_digits(v as int) by {
                    lemma_dec_digits_props(v as int);
                    if t == dec_digits(v as int) {
                        lemma_digits_value_prefix_mono(t, i + 1 - start);
                        assert(digits_value(t) == v as int);
                    }
                };
            }
            return None;
        }
        i += 1;
    }
    let value = acc as u32;
    proof {
        assert(t.subrange(0, end - start) =~= t);
        assert(t.len() >= 1);
        lemma_canonical_digits(t);
        assert(dec_digits(value as int) == t);
    }
    Some(value)
}

} // verus!
