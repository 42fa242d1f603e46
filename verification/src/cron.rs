use vstd::prelude::*;
use crate::clock::local_utc_offset_seconds;
use crate::text::{
    chars_of, is_field, join_ws, lemma_split_join, lemma_split_ws_fields, split_whitespace_spans,
    split_ws,
};

verus! {

/// An ASCII decimal digit.
pub open spec fn is_digit(c: char) -> bool {
    48 <= (c as int) <= 57
}

/// The value of an ASCII decimal digit.
pub open spec fn digit_value(c: char) -> int {
    (c as int) - 48
}

/// Every character is an ASCII decimal digit.
pub open spec fn all_digits(d: Seq<char>) -> bool {
    forall|i: int| 0 <= i < d.len() ==> is_digit(#[trigger] d[i])
}

/// The number that a run of decimal digits writes.
pub open spec fn digits_value(d: Seq<char>) -> int
    decreases d.len(),
{
    if d.len() == 0 {
        0
    } else {
        digits_value(d.drop_last()) * 10 + digit_value(d.last())
    }
}

/// What `str::parse::<i32>` gives: an optional `+` or `-`, then one or more ASCII
/// digits, and a value that fits in an `i32`; anything else is an error (`None`).
pub open spec fn parse_i32(s: Seq<char>) -> Option<i32> {
    let neg = s.len() > 0 && s[0] == '-';
    let signed = s.len() > 0 && (s[0] == '-' || s[0] == '+');
    let d = if signed {
        s.drop_first()
    } else {
        s
    };
    if d.len() == 0 || !all_digits(d) {
        None
    } else {
        let v = if neg {
            -digits_value(d)
        } else {
            digits_value(d)
        };
        if i32::MIN <= v <= i32::MAX {
            Some(v as i32)
        } else {
            None
        }
    }
}

/// The ASCII digit of a value in `0..10`.
pub open spec fn digit_char(n: int) -> char {
    (n + 48) as char
}

/// A natural number in decimal, without leading zeros: what `{}` prints.
pub open spec fn decimal(n: nat) -> Seq<char>
    decreases n,
{
    if n < 10 {
        seq![digit_char(n as int)]
    } else {
        decimal(n / 10).push(digit_char((n % 10) as int))
    }
}

/// An offset in seconds that a chrono `FixedOffset` can hold.
pub open spec fn valid_offset(secs: int) -> bool {
    -86400 < secs < 86400
}

/// Whole hours of an offset in seconds, rounded toward zero.
pub open spec fn offset_hours(secs: int) -> int {
    if secs >= 0 {
        secs / 3600
    } else {
        -((-secs) / 3600)
    }
}

/// The UTC hour of a local hour: the local hour less the offset's whole hours,
/// taken modulo 24 into `0..24`.
pub open spec fn utc_hour(hour: int, secs: int) -> int {
    (hour - offset_hours(secs)) % 24
}

/// A cron expression with its hour field moved from local time to UTC. It is
/// returned as it is unless it has exactly six whitespace-separated fields and
/// the third parses as an `i32`; otherwise the six fields are written back with
/// single spaces and the third replaced by the UTC hour.
pub open spec fn cron_to_utc(s: Seq<char>, secs: int) -> Seq<char> {
    let f = split_ws(s);
    if f.len() != 6 {
        s
    } else {
        match parse_i32(f[2]) {
            Some(h) => join_ws(f.update(2, decimal(utc_hour(h as int, secs) as nat))),
            None => s,
        }
    }
}

/// The hour less the offset's whole hours stays within `i32`.
pub open spec fn hour_shift_fits(s: Seq<char>, secs: int) -> bool {
    let f = split_ws(s);
    f.len() == 6 ==> match parse_i32(f[2]) {
        Some(h) => i32::MIN <= h - offset_hours(secs) <= i32::MAX,
        None => true,
    }
}

/// Where `s` has six fields with an `i32` hour, `r` has six fields too: the same
/// five others, and an hour of the day in `0..24` written in decimal.
pub open spec fn only_hour_moved(s: Seq<char>, r: Seq<char>) -> bool {
    let f = split_ws(s);
    let g = split_ws(r);
    (f.len() == 6 && parse_i32(f[2]) is Some) ==> {
        &&& g.len() == 6
        &&& forall|k: int| 0 <= k < 6 && k != 2 ==> #[trigger] g[k] == f[k]
        &&& exists|u: int| 0 <= u < 24 && g[2] == #[trigger] decimal(u as nat)
    }
}

/// The hour field, where there is one, is far enough from the ends of `i32` that
/// no offset a clock can report moves it out.
pub open spec fn cron_hour_fits(s: Seq<char>) -> bool {
    let f = split_ws(s);
    f.len() == 6 ==> match parse_i32(f[2]) {
        Some(h) => i32::MIN + 23 <= h <= i32::MAX - 23,
        None => true,
    }
}

/// Leading digits never write more than all of them.
pub proof fn lemma_digits_prefix(d: Seq<char>, k: int)
    requires
        all_digits(d),
        0 <= k <= d.len(),
    ensures
        0 <= digits_value(d.take(k)) <= digits_value(d),
    decreases d.len(),
{
    if d.len() > 0 {
        let p = d.drop_last();
        assert(all_digits(p)) by {
            assert forall|i: int| 0 <= i < p.len() implies is_digit(#[trigger] p[i]) by {
                assert(p[i] == d[i]);
            }
        }
        assert(is_digit(d[d.len() - 1]));
        if k == d.len() {
            assert(d.take(k) =~= d);
            lemma_digits_prefix(p, p.len() as int);
            assert(p.take(p.len() as int) =~= p);
        } else {
            lemma_digits_prefix(p, k);
            assert(p.take(k) =~= d.take(k));
            lemma_digits_prefix(p, p.len() as int);
            assert(p.take(p.len() as int) =~= p);
        }
    }
}

/// The value of a character if it is an ASCII decimal digit.
pub fn digit_of(c: char) -> (res: Option<u8>)
    ensures
        res is Some <==> is_digit(c),
        res matches Some(v) ==> v == digit_value(c),
{
    let u = c as u32;
    if 48 <= u && u <= 57 {
        Some((u - 48) as u8)
    } else {
        None
    }
}

/// Parses the characters `cs[lo..hi]` as `str::parse::<i32>` does.
pub fn parse_i32_span(cs: &Vec<char>, lo: usize, hi: usize) -> (res: Option<i32>)
    requires
        lo <= hi <= cs@.len(),
    ensures
        res == parse_i32(cs@.subrange(lo as int, hi as int)),
{
    let ghost s = cs@.subrange(lo as int, hi as int);
    let mut i = lo;
    let mut neg = false;
    if i < hi && cs[i] == '-' {
        neg = true;
        i = i + 1;
    } else if i < hi && cs[i] == '+' {
        i = i + 1;
    }
    let d0 = i;
    let ghost d = cs@.subrange(d0 as int, hi as int);
    assert(d =~= (if s.len() > 0 && (s[0] == '-' || s[0] == '+') {
        s.drop_first()
    } else {
        s
    }));
    assert(neg == (s.len() > 0 && s[0] == '-'));
    if d0 == hi {
        return None;
    }
    let mut acc: i64 = 0;
    assert(cs@.subrange(d0 as int, d0 as int) =~= Seq::<char>::empty());
    while i < hi
        invariant
            lo <= d0 <= i <= hi <= cs@.len(),
            d0 < hi,
            d == cs@.subrange(d0 as int, hi as int),
            s == cs@.subrange(lo as int, hi as int),
            d == (if s.len() > 0 && (s[0] == '-' || s[0] == '+') {
                s.drop_first()
            } else {
                s
            }),
            neg == (s.len() > 0 && s[0] == '-'),
            0 <= acc <= 2147483648,
            all_digits(cs@.subrange(d0 as int, i as int)),
            acc == digits_value(cs@.subrange(d0 as int, i as int)),
        decreases hi - i,
    {
        let c = cs[i];
        let dv = match digit_of(c) {
            Some(v) => v,
            None => {
                assert(d[i - d0] == c);
                assert(!is_digit(d[i - d0]));
                assert(!all_digits(d));
                return None;
            },
        };
        let ghost next = cs@.subrange(d0 as int, i + 1);
        assert(next.drop_last() =~= cs@.subrange(d0 as int, i as int));
        assert(next.last() == c);
        assert(all_digits(next)) by {
            assert forall|j: int| 0 <= j < next.len() implies is_digit(#[trigger] next[j]) by {
                if j < next.len() - 1 {
                    assert(next[j] == cs@.subrange(d0 as int, i as int)[j]);
                } else {
                    assert(next[j] == c);
                }
            }
        }
        acc = acc * 10 + dv as i64;
        if acc > 2147483648 {
            proof {
                if all_digits(d) {
                    assert(d.take(i + 1 - d0) =~= next);
                    lemma_digits_prefix(d, i + 1 - d0);
                }
            }
            return None;
        }
        i = i + 1;
    }
    let v: i64 = if neg {
        -acc
    } else {
        acc
    };
    if v < -2147483648 || v > 2147483647 {
        None
    } else {
        Some(v as i32)
    }
}

/// The decimal digit of a value in `0..10`, as text.
fn digit_text(d: u8) -> (res: &'static str)
    requires
        d < 10,
    ensures
        res@ == seq![digit_char(d as int)],
{
    let r = match d {
        0 => {
            proof {
                reveal_strlit("0");
            }
            "0"
        },
        1 => {
            proof {
                reveal_strlit("1");
            }
            "1"
        },
        2 => {
            proof {
                reveal_strlit("2");
            }
            "2"
        },
        3 => {
            proof {
                reveal_strlit("3");
            }
            "3"
        },
        4 => {
            proof {
                reveal_strlit("4");
            }
            "4"
        },
        5 => {
            proof {
                reveal_strlit("5");
            }
            "5"
        },
        6 => {
            proof {
                reveal_strlit("6");
            }
            "6"
        },
        7 => {
            proof {
                reveal_strlit("7");
            }
            "7"
        },
        8 => {
            proof {
                reveal_strlit("8");
            }
            "8"
        },
        _ => {
            proof {
                reveal_strlit("9");
            }
            "9"
        },
    };
    assert(r@ =~= seq![digit_char(d as int)]);
    r
}

/// An hour of the day in decimal, as `{}` prints it.
fn hour_text(h: u8) -> (res: String)
    requires
        h < 24,
    ensures
        res@ == decimal(h as nat),
{
    let mut out = String::new();
    if h >= 10 {
        out.append(digit_text(h / 10));
    }
    out.append(digit_text(h % 10));
    proof {
        reveal_with_fuel(decimal, 2);
        assert(out@ =~= decimal(h as nat));
    }
    out
}

/// Six fields joined by single spaces, written out.
pub proof fn lemma_join_six(g: Seq<Seq<char>>)
    requires
        g.len() == 6,
    ensures
        join_ws(g) == g[0] + seq![' '] + g[1] + seq![' '] + g[2] + seq![' '] + g[3] + seq![' ']
            + g[4] + seq![' '] + g[5],
{
    let g5 = g.drop_last();
    let g4 = g5.drop_last();
    let g3 = g4.drop_last();
    let g2 = g3.drop_last();
    let g1 = g2.drop_last();
    assert(join_ws(g1) == g[0]);
    assert(join_ws(g2) == join_ws(g1) + seq![' '] + g[1]);
    assert(join_ws(g3) == join_ws(g2) + seq![' '] + g[2]);
    assert(join_ws(g4) == join_ws(g3) + seq![' '] + g[3]);
    assert(join_ws(g5) == join_ws(g4) + seq![' '] + g[4]);
    assert(join_ws(g) == join_ws(g5) + seq![' '] + g[5]);
    assert(join_ws(g) =~= g[0] + seq![' '] + g[1] + seq![' '] + g[2] + seq![' '] + g[3] + seq![
        ' ',
    ] + g[4] + seq![' '] + g[5]);
}

/// Moves the hour field of a six-field cron expression from local time to UTC, for
/// a local time that is `offset_secs` seconds ahead of UTC.
pub fn cron_to_utc_with_offset(local_cron: &str, offset_secs: i32) -> (res: String)
    requires
        valid_offset(offset_secs as int),
        hour_shift_fits(local_cron@, offset_secs as int),
    ensures
        res@ == cron_to_utc(local_cron@, offset_secs as int),
        only_hour_moved(local_cron@, res@),
{
    proof {
        lemma_only_hour_moved(local_cron@, offset_secs as int);
    }
    let cs = chars_of(local_cron);
    let spans = split_whitespace_spans(&cs);
    let ghost f = split_ws(local_cron@);
    assert(spans@.len() == f.len());
    if spans.len() != 6 {
        return local_cron.to_owned();
    }
    let (lo, hi) = spans[2];
    assert(f[2] == cs@.subrange(lo as int, hi as int));
    match parse_i32_span(&cs, lo, hi) {
        None => local_cron.to_owned(),
        Some(hour) => {
            let off_hours: i32 = if offset_secs >= 0 {
                offset_secs / 3600
            } else {
                -((-offset_secs) / 3600)
            };
            assert(off_hours == offset_hours(offset_secs as int));
            let shifted: i32 = hour - off_hours;
            let utc = shifted.checked_rem_euclid(24).unwrap();
            assert(utc == utc_hour(hour as int, offset_secs as int));
            let hour_str = hour_text(utc as u8);
            let mut out = String::new();
            out.append(local_cron.substring_char(spans[0].0, spans[0].1));
            out.append(" ");
            out.append(local_cron.substring_char(spans[1].0, spans[1].1));
            out.append(" ");
            out.append(hour_str.as_str());
            out.append(" ");
            out.append(local_cron.substring_char(spans[3].0, spans[3].1));
            out.append(" ");
            out.append(local_cron.substring_char(spans[4].0, spans[4].1));
            out.append(" ");
            out.append(local_cron.substring_char(spans[5].0, spans[5].1));
            proof {
                reveal_strlit(" ");
                let g = f.update(2, decimal(utc as nat));
                lemma_join_six(g);
                assert(g[0] == f[0] && g[1] == f[1] && g[3] == f[3] && g[4] == f[4] && g[5]
                    == f[5]);
                assert(out@ =~= join_ws(g));
            }
            out
        },
    }
}

/// Tells whether the hour field, where there is one, is far enough from the ends of
/// `i32` for `local_cron_to_utc`.
pub fn cron_hour_in_range(local_cron: &str) -> (res: bool)
    ensures
        res == cron_hour_fits(local_cron@),
{
    let cs = chars_of(local_cron);
    let spans = split_whitespace_spans(&cs);
    let ghost f = split_ws(local_cron@);
    assert(spans@.len() == f.len());
    if spans.len() != 6 {
        return true;
    }
    let (lo, hi) = spans[2];
    assert(f[2] == cs@.subrange(lo as int, hi as int));
    match parse_i32_span(&cs, lo, hi) {
        None => true,
        Some(hour) => i32::MIN + 23 <= hour && hour <= i32::MAX - 23,
    }
}

/// An offset that a clock can report moves an hour by at most 23 hours.
pub proof fn lemma_offset_hours_bound(secs: int)
    requires
        valid_offset(secs),
    ensures
        -23 <= offset_hours(secs) <= 23,
        offset_hours(-secs) == -offset_hours(secs),
{
}

/// Moves the hour field of a six-field cron expression from the machine's local
/// time to UTC, with the offset that the clock reports now.
pub fn local_cron_to_utc(local_cron: String) -> (res: String)
    requires
        cron_hour_fits(local_cron@),
    ensures
        exists|secs: int| valid_offset(secs) && res@ == cron_to_utc(local_cron@, secs),
        only_hour_moved(local_cron@, res@),
{
    let offset_secs = local_utc_offset_seconds();
    proof {
        lemma_offset_hours_bound(offset_secs as int);
    }
    let res = cron_to_utc_with_offset(local_cron.as_str(), offset_secs);
    assert(valid_offset(offset_secs as int) && res@ == cron_to_utc(local_cron@, offset_secs as int));
    res
}

/// An hour of the day written in decimal is a field and parses back to itself.
pub proof fn lemma_hour_decimal(n: int)
    requires
        0 <= n < 24,
    ensures
        is_field(decimal(n as nat)),
        parse_i32(decimal(n as nat)) == Some(n as i32),
{
    reveal_with_fuel(decimal, 2);
    reveal_with_fuel(digits_value, 3);
    let d = decimal(n as nat);
    if n < 10 {
        let c = digit_char(n);
        assert(c as int == n + 48);
        assert(d == seq![c]);
        assert(d.drop_last() =~= Seq::<char>::empty());
        assert(d.last() == c);
        assert(digits_value(d) == n);
    } else {
        let c0 = digit_char(n / 10);
        let c1 = digit_char(n % 10);
        assert(c0 as int == n / 10 + 48);
        assert(c1 as int == n % 10 + 48);
        assert(d =~= seq![c0, c1]);
        assert(d.drop_last() =~= seq![c0]);
        assert(d.drop_last().drop_last() =~= Seq::<char>::empty());
        assert(d.last() == c1);
        assert(d.drop_last().last() == c0);
        assert(digits_value(d.drop_last()) == n / 10);
        assert(digits_value(d) == n);
    }
    assert(all_digits(d));
    assert(is_field(d));
}

/// A converted expression has the same six fields as the original, but for the
/// hour, which is the UTC hour, in `0..24`, without leading zeros.
pub proof fn lemma_cron_to_utc_fields(s: Seq<char>, secs: int)
    requires
        split_ws(s).len() == 6,
        parse_i32(split_ws(s)[2]) is Some,
    ensures
        0 <= utc_hour(parse_i32(split_ws(s)[2])->Some_0 as int, secs) < 24,
        split_ws(cron_to_utc(s, secs)) == split_ws(s).update(
            2,
            decimal(utc_hour(parse_i32(split_ws(s)[2])->Some_0 as int, secs) as nat),
        ),
{
    let f = split_ws(s);
    let h = parse_i32(f[2])->Some_0;
    let u1 = utc_hour(h as int, secs);
    let g = f.update(2, decimal(u1 as nat));
    lemma_hour_decimal(u1);
    lemma_split_ws_fields(s);
    assert forall|k: int| 0 <= k < g.len() implies is_field(#[trigger] g[k]) by {
        if k != 2 {
            assert(g[k] == f[k]);
        }
    }
    lemma_split_join(g);
}

/// Converting by any offset changes only the hour field, into an hour of the day.
pub proof fn lemma_only_hour_moved(s: Seq<char>, secs: int)
    ensures
        only_hour_moved(s, cron_to_utc(s, secs)),
{
    let f = split_ws(s);
    if f.len() == 6 && parse_i32(f[2]) is Some {
        lemma_cron_to_utc_fields(s, secs);
        let u = utc_hour(parse_i32(f[2])->Some_0 as int, secs);
        let g = split_ws(cron_to_utc(s, secs));
        assert(g[2] == decimal(u as nat));
    }
}

/// The hour written in a converted expression reads back as an hour of the day
/// that, with the offset's whole hours added, is the local hour modulo 24: the
/// offset is taken away from local time, not added to it. For an offset of whole
/// hours, the UTC hour is the local hour less those hours, modulo 24.
pub proof fn lemma_utc_hour_direction(s: Seq<char>, secs: int)
    requires
        split_ws(s).len() == 6,
        parse_i32(split_ws(s)[2]) is Some,
    ensures
        ({
            let h = parse_i32(split_ws(s)[2])->Some_0 as int;
            let r = split_ws(cron_to_utc(s, secs));
            &&& parse_i32(r[2]) is Some
            &&& 0 <= parse_i32(r[2])->Some_0 < 24
            &&& (parse_i32(r[2])->Some_0 + offset_hours(secs) - h) % 24 == 0
            &&& secs % 3600 == 0 ==> parse_i32(r[2])->Some_0 == (h - secs / 3600) % 24
        }),
{
    let h = parse_i32(split_ws(s)[2])->Some_0 as int;
    let u = utc_hour(h, secs);
    lemma_cron_to_utc_fields(s, secs);
    lemma_hour_decimal(u);
    let oh = offset_hours(secs);
    assert((((h - oh) % 24) + oh - h) % 24 == 0) by (nonlinear_arith);
    if secs % 3600 == 0 {
        if secs < 0 {
            assert((-secs) / 3600 == -(secs / 3600)) by (nonlinear_arith)
                requires
                    secs % 3600 == 0,
                    secs < 0,
            ;
        }
    }
}

/// Six proper fields joined by single spaces, whose hour is already an hour of the
/// day in decimal without leading zeros, come back unchanged from a conversion by
/// offset 0.
pub proof fn lemma_canonical_cron_unchanged(f: Seq<Seq<char>>, h: int)
    requires
        f.len() == 6,
        forall|k: int| 0 <= k < 6 ==> is_field(#[trigger] f[k]),
        0 <= h < 24,
        f[2] == decimal(h as nat),
    ensures
        cron_to_utc(join_ws(f), 0) == join_ws(f),
{
    lemma_split_join(f);
    lemma_hour_decimal(h);
    assert(offset_hours(0) == 0);
    assert(utc_hour(h, 0) == h);
    assert(f.update(2, decimal(h as nat)) =~= f);
}

/// Moving the hour field by an offset and then by the opposite offset gives what
/// moving it by no offset gives: the six fields with single spaces between them and
/// the hour taken modulo 24. An expression that is not moved is left as it is both times.
pub proof fn lemma_cron_round_trip(s: Seq<char>, secs: int)
    requires
        valid_offset(secs),
        hour_shift_fits(s, secs),
    ensures
        hour_shift_fits(cron_to_utc(s, secs), -secs),
        cron_to_utc(cron_to_utc(s, secs), -secs) == cron_to_utc(s, 0),
{
    lemma_offset_hours_bound(secs);
    let f = split_ws(s);
    if f.len() == 6 {
        if let Some(h) = parse_i32(f[2]) {
            let u1 = utc_hour(h as int, secs);
            let g = f.update(2, decimal(u1 as nat));
            lemma_cron_to_utc_fields(s, secs);
            lemma_hour_decimal(u1);
            let t = join_ws(g);
            assert(split_ws(t) == g);
            assert(parse_i32(split_ws(t)[2]) == Some(u1 as i32));
            let u2 = utc_hour(u1, -secs);
            let oh = offset_hours(secs);
            assert(u2 == (u1 + oh) % 24);
            assert(((h - oh) % 24 + oh) % 24 == h % 24) by (nonlinear_arith);
            assert(offset_hours(0) == 0);
            assert(u2 == utc_hour(h as int, 0));
            assert(g.update(2, decimal(u2 as nat)) =~= f.update(2, decimal(u2 as nat)));
        }
    }
}

} // verus!
