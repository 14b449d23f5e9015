//! Decoding of the hex-encoded Unix timestamps the remote API returns, and
//! their rendering as a local-zone display string. The hex decoding is exact
//! logic of this crate; only the calendar arithmetic and zone conversion are
//! delegated to chrono behind one trusted call.
use vstd::prelude::*;
use vstd::string::StrSliceExecFns;

use crate::is_hex_digit;
use crate::spec_is_hex_digit;

verus! {

/// Display string for a timestamp whose hex text does not decode.
pub open spec fn spec_parse_fail_text() -> Seq<char> {
    "时间解析失败"@
}

/// Display string for a decoded timestamp outside the calendar range.
pub open spec fn spec_range_fail_text() -> Seq<char> {
    "时间格式错误"@
}

/// Numeric value of an ASCII hexadecimal digit.
pub open spec fn spec_hex_digit_val(c: char) -> nat {
    if '0' <= c && c <= '9' {
        ((c as int) - 48) as nat
    } else if 'a' <= c && c <= 'f' {
        ((c as int) - 87) as nat
    } else if 'A' <= c && c <= 'F' {
        ((c as int) - 55) as nat
    } else {
        0
    }
}

/// Value of a run of hex digits read left to right onto the accumulator
/// `acc`; `None` on the first non-digit or as soon as the value would no
/// longer fit in 64 bits.
pub open spec fn spec_parse_hex_digits(s: Seq<char>, acc: nat) -> Option<nat>
    decreases s.len(),
{
    if s.len() == 0 {
        Some(acc)
    } else if !spec_is_hex_digit(s[0]) {
        None
    } else {
        let v = acc * 16 + spec_hex_digit_val(s[0]);
        if v > u64::MAX {
            None
        } else {
            spec_parse_hex_digits(s.skip(1), v)
        }
    }
}

/// The 64-bit value of a hex numeral, with the same acceptance as reading it
/// as an unsigned radix-16 integer: an optional leading `'+'`, then at least
/// one hex digit, and a value that fits in 64 bits.
pub open spec fn spec_parse_hex_u64(s: Seq<char>) -> Option<nat> {
    let body = if s.len() > 0 && s[0] == '+' {
        s.skip(1)
    } else {
        s
    };
    if body.len() == 0 {
        None
    } else {
        spec_parse_hex_digits(body, 0)
    }
}

/// The timestamp text with a leading `"0x"` removed, if one is there.
pub open spec fn spec_strip_hex_prefix(s: Seq<char>) -> Seq<char> {
    if s.len() >= 2 && s[0] == '0' && s[1] == 'x' {
        s.skip(2)
    } else {
        s
    }
}

/// Numeric value of one ASCII hexadecimal digit.
fn hex_digit_val(c: char) -> (r: u8)
    requires
        spec_is_hex_digit(c),
    ensures
        r as nat == spec_hex_digit_val(c),
        r < 16,
{
    let u = c as u32;
    if '0' <= c && c <= '9' {
        (u - 48) as u8
    } else if 'a' <= c && c <= 'f' {
        (u - 87) as u8
    } else {
        (u - 55) as u8
    }
}

/// Reads a hex numeral as a 64-bit unsigned value: an optional leading
/// `'+'`, then at least one hex digit; `None` on an empty numeral, a
/// non-digit character, or a value that does not fit.
#[verifier::loop_isolation(false)]
pub fn parse_hex_u64(s: &str) -> (r: Option<u64>)
    ensures
        match r {
            Some(v) => spec_parse_hex_u64(s@) == Some(v as nat),
            None => spec_parse_hex_u64(s@) is None,
        },
{
    let n = s.unicode_len();
    let start: usize = if n > 0 && s.get_char(0) == '+' {
        1
    } else {
        0
    };
    let ghost body = if s@.len() > 0 && s@[0] == '+' {
        s@.skip(1)
    } else {
        s@
    };
    proof {
        assert(s@.skip(0) =~= s@);
    }
    if n == start {
        return None;
    }
    let mut acc: u64 = 0;
    let mut i: usize = start;
    while i < n
        invariant
            start <= i <= n,
            n == s@.len(),
            body == s@.skip(start as int),
            spec_parse_hex_digits(body, 0) == spec_parse_hex_digits(s@.skip(i as int), acc as nat),
        decreases n - i,
    {
        let c = s.get_char(i);
        proof {
            assert(s@.skip(i as int)[0] == s@[i as int]);
        }
        if !is_hex_digit(c) {
            return None;
        }
        let d = hex_digit_val(c);
        let wide: u128 = (acc as u128) * 16 + (d as u128);
        if wide > u64::MAX as u128 {
            return None;
        }
        proof {
            assert(s@.skip(i as int).skip(1) =~= s@.skip(i as int + 1));
        }
        acc = wide as u64;
        i = i + 1;
    }
    proof {
        assert(s@.skip(n as int) =~= Seq::<char>::empty());
    }
    Some(acc)
}

/// Whether the timestamp's instant lies inside chrono's calendar range —
/// the condition under which `DateTime::<Utc>::from_timestamp(ts as i64, 0)`
/// returns `Some`. It depends on the timestamp alone; the exact year
/// boundary is chrono's.
pub uninterp spec fn in_calendar_range(ts: u64) -> bool;

/// Renders a Unix timestamp (seconds) in the machine's local zone as
/// `YYYY-MM-DD HH:MM`, or `None` when the instant lies outside the calendar
/// range.
///
/// Relies on chrono: `DateTime::<Utc>::from_timestamp` returns `None`
/// exactly on an out-of-range instant, a condition on the timestamp alone
/// (see [`in_calendar_range`]); the `DateTime<Local>` conversion and
/// `format` then always render the instant in the machine's time zone. The
/// rendered text depends on that zone, so only this is stated of it: the
/// `%Y-%m-%d %H:%M` items print ASCII digits and separators, so the text is
/// never one of this crate's (non-ASCII) sentinel strings.
#[verifier::external_body]
fn format_local_minute(ts: u64) -> (r: Option<String>)
    ensures
        r is Some <==> in_calendar_range(ts),
        r matches Some(t) ==> t@ != spec_parse_fail_text() && t@ != spec_range_fail_text(),
{
    match chrono::DateTime::<chrono::Utc>::from_timestamp(ts as i64, 0) {
        None => None,
        Some(dt) => {
            let local: chrono::DateTime<chrono::Local> = chrono::DateTime::from(dt);
            Some(local.format("%Y-%m-%d %H:%M").to_string())
        },
    }
}

/// Folds the calendar call's outcome into the display string: the rendered
/// text as it stands, or the range sentinel when the instant was out of
/// range.
pub fn render_instant(formatted: Option<String>) -> (r: String)
    ensures
        match formatted {
            Some(t) => r@ == t@,
            None => r@ == spec_range_fail_text(),
        },
{
    match formatted {
        Some(t) => t,
        None => "时间格式错误".to_owned(),
    }
}

/// Decodes a hex-encoded Unix timestamp (with or without a `"0x"` prefix)
/// and renders it as a local-zone display string. The result is exactly one
/// of three things: the parse-failure sentinel when and only when the
/// de-prefixed text does not decode as a hex u64; the range sentinel when
/// and only when the text decodes to an instant outside the calendar range;
/// and otherwise the local rendering of the decoded instant, whose text
/// depends on the machine's time zone.
pub fn format_timestamp(hex_timestamp: &str) -> (r: String)
    ensures
        ({
            let parsed = spec_parse_hex_u64(spec_strip_hex_prefix(hex_timestamp@));
            &&& (r@ == spec_parse_fail_text() <==> parsed is None)
            &&& (parsed matches Some(ts) ==> (r@ == spec_range_fail_text() <==> !in_calendar_range(
                ts as u64,
            )))
        }),
{
    proof {
        reveal_strlit("时间解析失败");
        reveal_strlit("时间格式错误");
        assert(spec_parse_fail_text() != spec_range_fail_text()) by {
            assert(spec_parse_fail_text()[2] != spec_range_fail_text()[2]);
        }
    }
    let n = hex_timestamp.unicode_len();
    let body: &str = if n >= 2 && hex_timestamp.get_char(0) == '0' && hex_timestamp.get_char(1)
        == 'x' {
        let rest = hex_timestamp.substring_char(2, n);
        proof {
            assert(rest@ =~= hex_timestamp@.skip(2));
        }
        rest
    } else {
        hex_timestamp
    };
    match parse_hex_u64(body) {
        None => "时间解析失败".to_owned(),
        Some(ts) => render_instant(format_local_minute(ts)),
    }
}

} // verus!
