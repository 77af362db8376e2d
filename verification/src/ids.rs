//! Checkpoint ids and times as the command line shows them.
use vstd::prelude::*;
use crate::error::LupeError;
use crate::text::{chars_of, push_str_chars, string_of, take_chars};

verus! {

/// The hexadecimal digit for `n` (below 16), lower case.
pub open spec fn hex_char(n: nat) -> char {
    if n < 10 {
        (48 + n) as char
    } else {
        (87 + n) as char
    }
}

/// The last `n` hexadecimal digits of `v`, most significant first.
pub open spec fn hex_digits(v: nat, n: nat) -> Seq<char>
    decreases n,
{
    if n == 0 {
        Seq::empty()
    } else {
        hex_digits(v / 16, (n - 1) as nat).push(hex_char(v % 16))
    }
}

pub proof fn lemma_hex_digits_len(v: nat, n: nat)
    ensures
        hex_digits(v, n).len() == n,
    decreases n,
{
    if n > 0 {
        lemma_hex_digits_len(v / 16, (n - 1) as nat);
    }
}

/// A UUID in its hyphenated form: its 32 hexadecimal digits, most
/// significant first, in groups of 8, 4, 4, 4 and 12 joined by `-`.
pub open spec fn uuid_hyphenated(id: u128) -> Seq<char> {
    let h = hex_digits(id as nat, 32);
    h.subrange(0, 8) + seq!['-'] + h.subrange(8, 12) + seq!['-'] + h.subrange(12, 16) + seq!['-']
        + h.subrange(16, 20) + seq!['-'] + h.subrange(20, 32)
}

/// Calls `uuid::Uuid::from_u128` and formats the UUID with `Display`, which
/// writes the hyphenated lower-case form of its big-endian bytes (the
/// crate's documentation shows `from_u128(0xa1a2..d8)` as
/// `a1a2a3a4-b1b2-c1c2-d1d2-d3d4d5d6d7d8`).
#[verifier::external_body]
fn uuid_text(id: u128) -> (s: String)
    ensures
        s@ == uuid_hyphenated(id),
{
    uuid::Uuid::from_u128(id).to_string()
}

/// The text of a checkpoint id.
pub fn id_text(id: u128) -> (s: String)
    ensures
        s@ == uuid_hyphenated(id),
{
    uuid_text(id)
}

/// The first 8 characters of a checkpoint id, as listings show it.
pub fn short_id(id: u128) -> (s: String)
    ensures
        s@ == uuid_hyphenated(id).take(8),
{
    let full = uuid_text(id);
    let cs = chars_of(full.as_str());
    proof {
        lemma_hex_digits_len(id as nat, 32);
    }
    string_of(&take_chars(&cs, 8))
}

/// The value `uuid::Uuid::parse_str` reads from a text, if it reads one.
pub uninterp spec fn uuid_parse(s: Seq<char>) -> Option<u128>;

/// Calls `uuid::Uuid::parse_str` and takes the 128-bit value of the result.
/// Its documentation says that every form the crate writes, the hyphenated
/// one among them, is read back; that is stated, the rest is named.
#[verifier::external_body]
fn parse_uuid_text(s: &str) -> (r: Option<u128>)
    ensures
        r == uuid_parse(s@),
        forall|id: u128| s@ == uuid_hyphenated(id) ==> r == Some(id),
{
    uuid::Uuid::parse_str(s).ok().map(|u| u.as_u128())
}

/// Reads a checkpoint id.
pub fn parse_uuid(value: String) -> (r: Result<u128, LupeError>)
    ensures
        r matches Ok(id) ==> uuid_parse(value@) == Some(id),
        r matches Err(e) ==> (uuid_parse(value@) is None && (e matches LupeError::InvalidUuid(v) && v@ == value@)),
{
    match parse_uuid_text(value.as_str()) {
        Some(id) => Ok(id),
        None => Err(LupeError::InvalidUuid(value)),
    }
}

/// Reads an optional checkpoint id.
pub fn optional_uuid(value: Option<String>) -> (r: Result<Option<u128>, LupeError>)
    ensures
        value is None ==> r == Ok::<Option<u128>, LupeError>(None),
        value matches Some(v) ==> (r matches Ok(Some(id)) ==> uuid_parse(v@) == Some(id)),
        value matches Some(v) ==> (r is Err <==> uuid_parse(v@) is None),
        r matches Ok(o) ==> (o is None <==> value is None),
{
    match value {
        None => Ok(None),
        Some(v) => match parse_uuid(v) {
            Ok(id) => Ok(Some(id)),
            Err(e) => Err(e),
        },
    }
}

}

verus! {

/// The instant an RFC 3339 text names, as seconds and nanoseconds since the
/// Unix epoch, if `chrono` reads it.
pub uninterp spec fn rfc3339_instant(s: Seq<char>) -> Option<(i64, u32)>;

/// Calls `chrono::DateTime::parse_from_rfc3339` and converts the result to
/// UTC seconds and nanoseconds. Which texts it accepts is only named.
#[verifier::external_body]
fn parse_rfc3339(s: &str) -> (r: Option<(i64, u32)>)
    ensures
        r == rfc3339_instant(s@),
{
    chrono::DateTime::parse_from_rfc3339(s).ok().map(|d| (d.timestamp(), d.timestamp_subsec_nanos()))
}

/// Reads a stored time, as seconds and nanoseconds since the Unix epoch.
pub fn parse_time(value: &str) -> (r: Option<(i64, u32)>)
    ensures
        r == rfc3339_instant(value@),
{
    parse_rfc3339(value)
}

/// The formats `friendly_time` uses.
pub open spec fn is_time_format(f: Seq<char>) -> bool {
    ||| f == "%I:%M %p"@
    ||| f == "%a"@
    ||| f == "%B"@
    ||| f == "%Y"@
    ||| f == "%-d"@
}

/// The text `chrono` formats for the UTC instant with format `fmt`, if the
/// instant is in its range.
pub uninterp spec fn utc_format(secs: i64, nanos: u32, fmt: Seq<char>) -> Option<Seq<char>>;

/// Calls `chrono::DateTime::from_timestamp` and, when the instant is in
/// range, `format(fmt)`; the formats used are all valid. The text is named.
#[verifier::external_body]
fn format_utc(secs: i64, nanos: u32, fmt: &str) -> (r: Option<String>)
    requires
        is_time_format(fmt@),
    ensures
        r matches Some(s) ==> utc_format(secs, nanos, fmt@) == Some(s@),
        r is None ==> utc_format(secs, nanos, fmt@) is None,
{
    chrono::DateTime::from_timestamp(secs, nanos).map(|dt| dt.format(fmt).to_string())
}

/// The suffix of an ordinal number: `st`, `nd`, `rd` or `th`.
pub open spec fn ordinal_spec(day: u32) -> Seq<char> {
    if 11 <= day % 100 <= 13 {
        "th"@
    } else if day % 10 == 1 {
        "st"@
    } else if day % 10 == 2 {
        "nd"@
    } else if day % 10 == 3 {
        "rd"@
    } else {
        "th"@
    }
}

fn ordinal(day: u32) -> (s: &'static str)
    ensures
        s@ == ordinal_spec(day),
{
    let h = day % 100;
    if 11 <= h && h <= 13 {
        "th"
    } else if day % 10 == 1 {
        "st"
    } else if day % 10 == 2 {
        "nd"
    } else if day % 10 == 3 {
        "rd"
    } else {
        "th"
    }
}

/// The decimal digits of `n`.
pub open spec fn decimal(n: nat) -> Seq<char>
    decreases n,
{
    if n < 10 {
        seq![hex_char(n)]
    } else {
        decimal(n / 10).push(hex_char(n % 10))
    }
}

/// The decimal text of `n`.
pub fn decimal_text(n: u64) -> (s: String)
    ensures
        s@ == decimal(n as nat),
{
    let mut digits: Vec<char> = Vec::new();
    let mut m = n;
    // digits of m, least significant first, then reversed
    let ghost mut rest: Seq<char> = Seq::empty();
    while m >= 10
        invariant
            decimal(n as nat) == decimal(m as nat) + digits@.reverse(),
        decreases m,
    {
        let d = (m % 10) as u8;
        let c = ((48u8 + d) as u8) as char;
        assert(c == hex_char((m % 10) as nat));
        let ghost old_digits = digits@;
        digits.push(c);
        proof {
            assert(decimal(m as nat) == decimal((m / 10) as nat).push(c));
            assert(digits@.reverse() =~= seq![c] + old_digits.reverse());
            assert(decimal(m as nat) + old_digits.reverse() =~= decimal((m / 10) as nat) + digits@.reverse());
        }
        m = m / 10;
    }
    let c = ((48u8 + m as u8) as u8) as char;
    assert(c == hex_char(m as nat));
    let mut out: Vec<char> = Vec::new();
    out.push(c);
    let mut i = digits.len();
    while i > 0
        invariant
            i <= digits@.len(),
            out@ == decimal(m as nat) + digits@.skip(i as int).reverse(),
            decimal(n as nat) == decimal(m as nat) + digits@.reverse(),
        decreases i,
    {
        let ghost before = out@;
        out.push(digits[i - 1]);
        assert(digits@.skip(i - 1).reverse() =~= digits@.skip(i as int).reverse().push(digits@[i - 1]));
        i = i - 1;
    }
    assert(digits@.skip(0) =~= digits@);
    string_of(&out)
}

}

verus! {

/// Every character of `s` is an ASCII digit.
pub open spec fn all_digits(s: Seq<char>) -> bool {
    forall|i: int| 0 <= i < s.len() ==> '0' <= #[trigger] s[i] <= '9'
}

/// The number the decimal digits `s` write.
pub open spec fn digits_value(s: Seq<char>) -> nat
    decreases s.len(),
{
    if s.len() == 0 {
        0
    } else {
        digits_value(s.drop_last()) * 10 + ((s.last() as u32) - 48) as nat
    }
}

/// What `str::parse::<u32>` reads, or 0 when it fails: an optional `+`,
/// then at least one digit, with a value that fits in `u32`.
pub open spec fn parse_u32_or_zero(s: Seq<char>) -> u32 {
    let d = if s.len() > 0 && s[0] == '+' { s.drop_first() } else { s };
    if d.len() > 0 && all_digits(d) && digits_value(d) <= u32::MAX {
        digits_value(d) as u32
    } else {
        0
    }
}

/// Reads a decimal number as `parse::<u32>().unwrap_or(0)` does.
pub fn parse_u32_or_zero_chars(s: &Vec<char>) -> (n: u32)
    ensures
        n == parse_u32_or_zero(s@),
{
    let start: usize = if s.len() > 0 && s[0] == '+' { 1 } else { 0 };
    let ghost d = if s@.len() > 0 && s@[0] == '+' { s@.drop_first() } else { s@ };
    assert(d =~= s@.skip(start as int));
    if start == s.len() {
        return 0;
    }
    let mut value: u64 = 0;
    let mut i = start;
    while i < s.len()
        invariant
            start <= i <= s@.len(),
            start < s@.len(),
            d == s@.skip(start as int),
            d == (if s@.len() > 0 && s@[0] == '+' { s@.drop_first() } else { s@ }),
            all_digits(s@.subrange(start as int, i as int)),
            value == digits_value(s@.subrange(start as int, i as int)),
            value <= u32::MAX,
        decreases s@.len() - i,
    {
        let c = s[i];
        if !('0' <= c && c <= '9') {
            assert(d[i - start] == c);
            return 0;
        }
        assert(s@.subrange(start as int, i + 1).drop_last() =~= s@.subrange(start as int, i as int));
        let next = value * 10 + ((c as u32) - 48) as u64;
        if next > u32::MAX as u64 {
            proof {
                lemma_digits_value_mono(d, i + 1 - start);
                assert(d.take(i + 1 - start) =~= s@.subrange(start as int, i + 1));
                assert(digits_value(s@.subrange(start as int, i + 1)) == next);
            }
            // the rest is all digits or not; either way the value is out of range or not digits
            return 0;
        }
        value = next;
        i = i + 1;
    }
    assert(s@.subrange(start as int, s@.len() as int) =~= d);
    value as u32
}

proof fn lemma_digits_value_mono(d: Seq<char>, k: int)
    requires
        0 <= k <= d.len(),
    ensures
        all_digits(d) ==> digits_value(d.take(k)) <= digits_value(d),
    decreases d.len(),
{
    if k < d.len() && all_digits(d) {
        assert(d.drop_last().take(k) =~= d.take(k));
        assert(all_digits(d.drop_last()));
        lemma_digits_value_mono(d.drop_last(), k);
    } else {
        assert(d.take(k) =~= d.take(d.len() as int) || k < d.len());
        if k == d.len() {
            assert(d.take(k) =~= d);
        }
    }
}

/// How the command line shows an instant: `HH:MM AM, Ddd - Month Nth YYYY`.
pub open spec fn friendly_time_spec(secs: i64, nanos: u32) -> Option<Seq<char>> {
    match (
        utc_format(secs, nanos, "%-d"@),
        utc_format(secs, nanos, "%I:%M %p"@),
        utc_format(secs, nanos, "%a"@),
        utc_format(secs, nanos, "%B"@),
        utc_format(secs, nanos, "%Y"@),
    ) {
        (Some(d), Some(t), Some(w), Some(m), Some(y)) => {
            let day = parse_u32_or_zero(d);
            Some(t + ", "@ + w + " - "@ + m + " "@ + decimal(day as nat) + ordinal_spec(day) + " "@ + y)
        },
        _ => None,
    }
}

/// The instant `secs`/`nanos` (UTC) as listings show it, or `None` when it
/// is outside the range `chrono` handles.
pub fn friendly_time(secs: i64, nanos: u32) -> (r: Option<String>)
    ensures
        r matches Some(s) ==> friendly_time_spec(secs, nanos) == Some(s@),
        r is None ==> friendly_time_spec(secs, nanos) is None,
{
    let d = format_utc(secs, nanos, "%-d");
    let t = format_utc(secs, nanos, "%I:%M %p");
    let w = format_utc(secs, nanos, "%a");
    let m = format_utc(secs, nanos, "%B");
    let y = format_utc(secs, nanos, "%Y");
    match (d, t, w, m, y) {
        (Some(d), Some(t), Some(w), Some(m), Some(y)) => {
            let day = parse_u32_or_zero_chars(&chars_of(d.as_str()));
            let day_text = decimal_text(day as u64);
            let mut out: Vec<char> = Vec::new();
            push_str_chars(&mut out, t.as_str());
            push_str_chars(&mut out, ", ");
            push_str_chars(&mut out, w.as_str());
            push_str_chars(&mut out, " - ");
            push_str_chars(&mut out, m.as_str());
            push_str_chars(&mut out, " ");
            push_str_chars(&mut out, day_text.as_str());
            push_str_chars(&mut out, ordinal(day));
            push_str_chars(&mut out, " ");
            push_str_chars(&mut out, y.as_str());
            Some(string_of(&out))
        },
        _ => None,
    }
}

}
