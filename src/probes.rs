use vstd::prelude::*;
use vstd::string::*;

use crate::text::{decimal, digit, push_decimal, push_digit, push_two_digits, two_digits};

verus! {

/// The English weekday abbreviations, Monday first.
pub const WEEKDAYS: &'static str = "MonTueWedThuFriSatSun";

/// The English month abbreviations, January first.
pub const MONTHS: &'static str = "JanFebMarAprMayJunJulAugSepOctNovDec";

/// A time of day as `HH:MM`.
pub open spec fn clock_spec(hour: nat, minute: nat) -> Seq<char> {
    two_digits(hour) + seq![':'] + two_digits(minute)
}

/// A date as `Www Mmm DD`; `weekday` counts from Monday = 0, `month` from 1.
pub open spec fn date_spec(weekday: nat, month: nat, day: nat) -> Seq<char> {
    let w = 3 * weekday as int;
    let m = 3 * (month - 1) as int;
    WEEKDAYS@.subrange(w, w + 3) + seq![' '] + MONTHS@.subrange(m, m + 3) + seq![' '] + two_digits(
        day,
    )
}

/// The time of day `hour:minute` as `HH:MM`.
pub fn clock_text(hour: u32, minute: u32) -> (r: String)
    requires
        hour < 24,
        minute < 60,
    ensures
        r@ == clock_spec(hour as nat, minute as nat),
{
    proof {
        reveal_strlit(":");
    }
    let mut s = String::new();
    push_two_digits(&mut s, hour as u64);
    s.append(":");
    push_two_digits(&mut s, minute as u64);
    assert(s@ =~= clock_spec(hour as nat, minute as nat));
    s
}

/// The date as `Www Mmm DD`; `weekday` counts from Monday = 0, `month` from 1.
pub fn date_text(weekday: u32, month: u32, day: u32) -> (r: String)
    requires
        weekday < 7,
        1 <= month <= 12,
        1 <= day <= 31,
    ensures
        r@ == date_spec(weekday as nat, month as nat, day as nat),
{
    proof {
        reveal_strlit("MonTueWedThuFriSatSun");
        reveal_strlit("JanFebMarAprMayJunJulAugSepOctNovDec");
        reveal_strlit(" ");
    }
    let w = 3 * weekday as usize;
    let m = 3 * (month as usize - 1);
    let mut s = String::new();
    s.append(WEEKDAYS.substring_char(w, w + 3));
    s.append(" ");
    s.append(MONTHS.substring_char(m, m + 3));
    s.append(" ");
    push_two_digits(&mut s, day as u64);
    assert(s@ =~= date_spec(weekday as nat, month as nat, day as nat));
    s
}

/// The number of bytes in a gibibyte.
pub const GIB: u64 = 1073741824;

/// `bytes` in tenths of a gibibyte, rounded to the nearest (halves up).
pub open spec fn gib_tenths_spec(bytes: nat) -> nat {
    ((bytes * 10 + GIB as nat / 2) / (GIB as nat)) as nat
}

/// A count of tenths as a decimal number: `q` for a whole number, else `q.d`.
pub open spec fn tenths_spec(t: nat) -> Seq<char> {
    if t % 10 == 0 {
        decimal(t / 10)
    } else {
        decimal(t / 10) + seq!['.', digit(t % 10)]
    }
}

/// Memory in use and available, in gibibytes to one decimal, as `U|AG`.
pub open spec fn memory_usage_spec(used: nat, available: nat) -> Seq<char> {
    tenths_spec(gib_tenths_spec(used)) + seq!['|'] + tenths_spec(gib_tenths_spec(available)) + seq![
        'G',
    ]
}

/// `bytes` in tenths of a gibibyte, rounded to the nearest (halves up).
pub fn gib_tenths(bytes: u64) -> (r: u64)
    ensures
        r == gib_tenths_spec(bytes as nat),
{
    let wide: u128 = bytes as u128 * 10 + 536870912;
    assert(wide / 1073741824 < 0x1_0000_0000_0000_0000) by (nonlinear_arith)
        requires
            wide <= 0xffff_ffff_ffff_ffff * 10 + 536870912,
    ;
    (wide / 1073741824) as u64
}

/// Appends a count of tenths to `s` as a decimal number.
pub fn push_tenths(s: &mut String, t: u64)
    ensures
        final(s)@ == old(s)@ + tenths_spec(t as nat),
{
    proof {
        reveal_strlit(".");
    }
    push_decimal(s, t / 10);
    if t % 10 != 0 {
        s.append(".");
        push_digit(s, t % 10);
    }
    assert(final(s)@ =~= old(s)@ + tenths_spec(t as nat));
}

/// `bytes` in gibibytes to one decimal.
pub fn gib_text(bytes: u64) -> (r: String)
    ensures
        r@ == tenths_spec(gib_tenths_spec(bytes as nat)),
{
    let mut s = String::new();
    push_tenths(&mut s, gib_tenths(bytes));
    assert(s@ =~= tenths_spec(gib_tenths_spec(bytes as nat)));
    s
}

/// Memory in use and available, in gibibytes to one decimal, as `U|AG`.
pub fn memory_usage_text(used: u64, available: u64) -> (r: String)
    ensures
        r@ == memory_usage_spec(used as nat, available as nat),
{
    proof {
        reveal_strlit("|");
        reveal_strlit("G");
    }
    let mut s = String::new();
    push_tenths(&mut s, gib_tenths(used));
    s.append("|");
    push_tenths(&mut s, gib_tenths(available));
    s.append("G");
    assert(s@ =~= memory_usage_spec(used as nat, available as nat));
    s
}

/// Whether `c` is an ASCII decimal digit.
pub open spec fn is_digit(c: char) -> bool {
    '0' <= c <= '9'
}

/// The value of a run of decimal digits.
pub open spec fn digits_value(s: Seq<char>) -> nat
    decreases s.len(),
{
    if s.len() == 0 {
        0
    } else {
        digits_value(s.drop_last()) * 10 + ((s.last() as u32) - ('0' as u32)) as nat
    }
}

/// The text of a number after its optional `+`.
pub open spec fn unsigned_digits(s: Seq<char>) -> Seq<char> {
    if s.len() > 0 && s[0] == '+' {
        s.drop_first()
    } else {
        s
    }
}

/// A text read as an unsigned 64-bit number: an optional `+`, then one or
/// more decimal digits whose value fits.
pub open spec fn parse_u64_spec(s: Seq<char>) -> Option<u64> {
    let d = unsigned_digits(s);
    if d.len() > 0 && (forall|i: int| 0 <= i < d.len() ==> is_digit(#[trigger] d[i]))
        && digits_value(d) <= u64::MAX {
        Some(digits_value(d) as u64)
    } else {
        None
    }
}

/// A run of digits has at least the value of any of its prefixes.
proof fn lemma_digits_value_prefix(s: Seq<char>, k: int)
    requires
        0 <= k <= s.len(),
    ensures
        digits_value(s.take(k)) <= digits_value(s),
    decreases s.len(),
{
    if k < s.len() {
        assert(s.drop_last().take(k) =~= s.take(k));
        lemma_digits_value_prefix(s.drop_last(), k);
    } else {
        assert(s.take(k) =~= s);
    }
}

/// `s` read as an unsigned 64-bit number, as `str::parse::<u64>` reads it:
/// an optional `+`, then one or more decimal digits whose value fits.
pub fn parse_u64(s: &str) -> (r: Option<u64>)
    ensures
        r == parse_u64_spec(s@),
{
    let n = s.unicode_len();
    let mut start: usize = 0;
    if n > 0 && s.get_char(0) == '+' {
        start = 1;
    }
    let ghost d = s@.subrange(start as int, n as int);
    assert(d =~= unsigned_digits(s@));
    if start == n {
        return None;
    }
    let mut acc: u64 = 0;
    let mut i: usize = start;
    while i < n
        invariant
            n == s@.len(),
            start < n,
            start <= i <= n,
            d == s@.subrange(start as int, n as int),
            d == unsigned_digits(s@),
            forall|j: int| start <= j < i ==> is_digit(#[trigger] s@[j]),
            acc == digits_value(d.take(i - start)),
        decreases n - i,
    {
        let c = s.get_char(i);
        if !('0' <= c && c <= '9') {
            assert(!is_digit(d[i - start]));
            assert(parse_u64_spec(s@) is None);
            return None;
        }
        let v = (c as u32 - '0' as u32) as u64;
        let ghost next = d.take(i + 1 - start);
        assert(next.drop_last() =~= d.take(i - start));
        assert(next.last() == c);
        if acc > (u64::MAX - v) / 10 {
            assert(acc * 10 + v > u64::MAX) by (nonlinear_arith)
                requires
                    acc > (u64::MAX - v) / 10,
                    v <= 9,
            ;
            proof {
                if forall|j: int| 0 <= j < d.len() ==> is_digit(#[trigger] d[j]) {
                    lemma_digits_value_prefix(d, i + 1 - start);
                }
                assert(parse_u64_spec(s@) is None);
            }
            return None;
        }
        assert(acc * 10 + v <= u64::MAX) by (nonlinear_arith)
            requires
                acc <= (u64::MAX - v) / 10,
                v <= 9,
        ;
        acc = acc * 10 + v;
        i = i + 1;
    }
    assert(d.take(n - start) =~= d);
    assert forall|j: int| 0 <= j < d.len() implies is_digit(#[trigger] d[j]) by {
        assert(d[j] == s@[start + j]);
    }
    Some(acc)
}

/// Whether `c` ends the first field of the uptime text.
pub open spec fn is_field_end(c: char) -> bool {
    c == ' ' || c == '.'
}

/// Whether the first field of `s` is `s.take(k)`: `k` is the first
/// position of a space or a dot, or the length when there is none.
pub open spec fn first_field_len(s: Seq<char>, k: int) -> bool {
    &&& 0 <= k <= s.len()
    &&& k == s.len() || is_field_end(s[k])
    &&& forall|j: int| 0 <= j < k ==> !is_field_end(#[trigger] s[j])
}

/// The text before the first space or dot of `s`: the whole seconds of an
/// uptime record.
pub open spec fn first_field(s: Seq<char>) -> Seq<char> {
    s.take(choose|k: int| first_field_len(s, k))
}

/// A number of seconds as `H:MM:SS`, hours unbounded.
pub open spec fn duration_spec(secs: nat) -> Seq<char> {
    decimal(secs / 3600) + seq![':'] + two_digits((secs / 60) % 60) + seq![':'] + two_digits(
        secs % 60,
    )
}

/// The uptime shown for the text of an uptime record, or `None` when its
/// first field is not a number.
pub open spec fn uptime_spec(content: Seq<char>) -> Option<Seq<char>> {
    match parse_u64_spec(first_field(content)) {
        Some(n) => Some(duration_spec(n as nat)),
        None => None,
    }
}

proof fn lemma_first_field_len_unique(s: Seq<char>, k: int, l: int)
    requires
        first_field_len(s, k),
        first_field_len(s, l),
    ensures
        k == l,
{
    if k < l {
        assert(!is_field_end(s[k]));
    } else if l < k {
        assert(!is_field_end(s[l]));
    }
}

/// A number of seconds as `H:MM:SS`.
pub fn duration_text(secs: u64) -> (r: String)
    ensures
        r@ == duration_spec(secs as nat),
{
    proof {
        reveal_strlit(":");
    }
    let mut s = String::new();
    push_decimal(&mut s, secs / 3600);
    s.append(":");
    push_two_digits(&mut s, (secs / 60) % 60);
    s.append(":");
    push_two_digits(&mut s, secs % 60);
    assert(s@ =~= duration_spec(secs as nat));
    s
}

/// The uptime for the text of an uptime record (seconds since boot, then
/// more fields): its whole seconds as `H:MM:SS`, or `None` when they are
/// not a number.
pub fn uptime_text(content: &str) -> (r: Option<String>)
    ensures
        r is Some <==> uptime_spec(content@) is Some,
        r is Some ==> r->0@ == uptime_spec(content@)->0,
{
    let n = content.unicode_len();
    let mut k: usize = 0;
    while k < n
        invariant
            n == content@.len(),
            k <= n,
            forall|j: int| 0 <= j < k ==> !is_field_end(#[trigger] content@[j]),
        ensures
            k <= n,
            k == n || is_field_end(content@[k as int]),
            forall|j: int| 0 <= j < k ==> !is_field_end(#[trigger] content@[j]),
        decreases n - k,
    {
        let c = content.get_char(k);
        if c == ' ' || c == '.' {
            break;
        }
        k = k + 1;
    }
    proof {
        assert(first_field_len(content@, k as int));
        let c = choose|l: int| first_field_len(content@, l);
        lemma_first_field_len_unique(content@, k as int, c);
    }
    let field = content.substring_char(0, k);
    assert(field@ =~= first_field(content@));
    match parse_u64(field) {
        Some(secs) => Some(duration_text(secs)),
        None => None,
    }
}

} // verus!
