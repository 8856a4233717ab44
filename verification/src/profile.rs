//! Profile bookkeeping: summary records, the media file-name rule, and the
//! UTC calendar arithmetic behind profile creation timestamps.

use vstd::prelude::*;
use vstd::string::*;

use crate::project::ProjectError;
use crate::text::{push_char, str_eq};

verus! {

// ── Profile types ──────────────────────────────────────────────────

/// Format version written into new profiles.
pub const PROFILE_VERSION: u32 = 1;

/// The stored metadata of a profile.
#[derive(Debug, Clone)]
pub struct ProfileMeta {
    pub version: u32,
    pub name: String,
    pub created_at: String,
}

/// Summary info for listing profiles (cheap to compute).
#[derive(Debug, Clone)]
pub struct ProfileSummary {
    pub name: String,
    pub slug: String,
    pub created_at: String,
    pub sequence_count: usize,
    pub fixture_count: usize,
}

/// Summary info for listing sequences.
#[derive(Debug, Clone)]
pub struct SequenceSummary {
    pub name: String,
    pub slug: String,
}

/// An audio file in a profile's media directory.
#[derive(Debug, Clone)]
pub struct MediaFile {
    pub filename: String,
    pub size_bytes: u64,
}

// ── File names ─────────────────────────────────────────────────────

/// `s` holds two dots in a row.
pub open spec fn has_double_dot(s: Seq<char>) -> bool {
    exists|k: int| 0 <= k && k + 1 < s.len() && #[trigger] s[k] == '.' && s[k + 1] == '.'
}

/// Position `k` of `s` holds a refused character or starts a double dot.
pub open spec fn bad_at(s: Seq<char>, k: int) -> bool {
    s[k] == '/' || s[k] == '\\' || s[k] == '\0' || (k + 1 < s.len() && s[k] == '.' && s[k + 1] == '.')
}

/// A file name is refused when it is empty or holds a slash, a backslash,
/// two dots in a row, or a NUL character.
pub open spec fn invalid_filename(s: Seq<char>) -> bool {
    ||| s.len() == 0
    ||| s.contains('/')
    ||| s.contains('\\')
    ||| has_double_dot(s)
    ||| s.contains('\0')
}

/// Checks that a media file name is a plain file name.
pub fn validate_filename(name: &str) -> (r: Result<(), ProjectError>)
    ensures
        r is Err <==> invalid_filename(name@),
        r matches Err(e) ==> (e matches ProjectError::InvalidProject(m) && m@
            == "Invalid filename: "@ + name@),
{
    let n = name.unicode_len();
    let mut bad = n == 0;
    let mut i: usize = 0;
    while i < n
        invariant
            n == name@.len(),
            i <= n,
            bad <==> (n == 0 || exists|k: int| 0 <= k < i && #[trigger] bad_at(name@, k)),
        decreases n - i,
    {
        let c = name.get_char(i);
        if c == '/' || c == '\\' || c == '\0' {
            bad = true;
        } else if c == '.' && i + 1 < n && name.get_char(i + 1) == '.' {
            bad = true;
        }
        proof {
            if c == '.' && i + 1 < n {
                assert(name@[i + 1] == '.' ==> bad);
            }
            assert(bad_at(name@, i as int) ==> bad);
            assert(bad ==> (n == 0 || bad_at(name@, i as int) || exists|k: int|
                0 <= k < i && #[trigger] bad_at(name@, k)));
        }
        i += 1;
    }
    proof {
        if bad && n > 0 {
            let k = choose|k: int| 0 <= k < i && #[trigger] bad_at(name@, k);
            if name@[k] == '/' {
                assert(name@.contains('/'));
            } else if name@[k] == '\\' {
                assert(name@.contains('\\'));
            } else if name@[k] == '\0' {
                assert(name@.contains('\0'));
            } else {
                assert(has_double_dot(name@));
            }
        }
        if invalid_filename(name@) && n > 0 {
            if name@.contains('/') {
                let k = choose|k: int| 0 <= k < name@.len() && name@[k] == '/';
                assert(0 <= k < i && bad_at(name@, k));
            } else if name@.contains('\\') {
                let k = choose|k: int| 0 <= k < name@.len() && name@[k] == '\\';
                assert(0 <= k < i && bad_at(name@, k));
            } else if name@.contains('\0') {
                let k = choose|k: int| 0 <= k < name@.len() && name@[k] == '\0';
                assert(0 <= k < i && bad_at(name@, k));
            } else {
                let k = choose|k: int|
                    0 <= k && k + 1 < name@.len() && #[trigger] name@[k] == '.' && name@[k + 1]
                        == '.';
                assert(0 <= k < i && bad_at(name@, k));
            }
        }
    }
    if bad {
        let mut m = String::from_str("Invalid filename: ");
        m.append(name);
        return Err(ProjectError::InvalidProject(m));
    }
    Ok(())
}

// ── Calendar ───────────────────────────────────────────────────────

/// Gregorian leap-year rule.
pub open spec fn is_leap_year(year: int) -> bool {
    (year % 4 == 0 && year % 100 != 0) || year % 400 == 0
}

/// Number of days in `year`.
pub open spec fn year_len(year: int) -> int {
    if is_leap_year(year) { 366 } else { 365 }
}

/// Days from 1970-01-01 to the first day of `year` (for years from 1970 on).
pub open spec fn days_before_year(year: int) -> int
    decreases year - 1970,
{
    if year <= 1970 {
        0
    } else {
        days_before_year(year - 1) + year_len(year - 1)
    }
}

/// Number of days in month `month` (1..=12) of `year`.
pub open spec fn month_len(year: int, month: int) -> int {
    if month == 2 {
        if is_leap_year(year) { 29 } else { 28 }
    } else if month == 4 || month == 6 || month == 9 || month == 11 {
        30
    } else {
        31
    }
}

/// Days from the first of January of `year` to the first day of `month`.
pub open spec fn days_before_month(year: int, month: int) -> int
    decreases month,
{
    if month <= 1 {
        0
    } else {
        days_before_month(year, month - 1) + month_len(year, month - 1)
    }
}

/// `(year, month, day)` is the calendar date `days` days after 1970-01-01.
pub open spec fn is_date_of(days: int, year: int, month: int, day: int) -> bool {
    &&& year >= 1970
    &&& 1 <= month <= 12
    &&& 1 <= day <= month_len(year, month)
    &&& days_before_year(year) + days_before_month(year, month) + day - 1 == days
}

/// The months of a year add up to the year's length.
pub proof fn lemma_days_before_month_total(year: int)
    ensures
        days_before_month(year, 13) == year_len(year),
{
    assert(days_before_month(year, 13) == year_len(year)) by {
        reveal_with_fuel(days_before_month, 13);
    }
}

/// Later months start later in the year.
pub proof fn lemma_days_before_month_mono(year: int, m1: int, m2: int)
    requires
        1 <= m1 <= m2,
    ensures
        days_before_month(year, m1) + (m2 - m1) * 28 <= days_before_month(year, m2),
    decreases m2 - m1,
{
    if m1 < m2 {
        lemma_days_before_month_mono(year, m1, m2 - 1);
    }
}

/// Later years start later.
pub proof fn lemma_days_before_year_mono(y1: int, y2: int)
    requires
        1970 <= y1 <= y2,
    ensures
        days_before_year(y1) + (y2 - y1) * 365 <= days_before_year(y2),
    decreases y2 - y1,
{
    if y1 < y2 {
        lemma_days_before_year_mono(y1, y2 - 1);
    }
}

/// Each day count has exactly one calendar date.
pub proof fn lemma_date_unique(days: int, y1: int, m1: int, d1: int, y2: int, m2: int, d2: int)
    requires
        is_date_of(days, y1, m1, d1),
        is_date_of(days, y2, m2, d2),
    ensures
        y1 == y2 && m1 == m2 && d1 == d2,
{
    lemma_days_within_year(y1, m1, d1);
    lemma_days_within_year(y2, m2, d2);
    if y1 < y2 {
        lemma_days_before_year_mono(y1 + 1, y2);
    } else if y2 < y1 {
        lemma_days_before_year_mono(y2 + 1, y1);
    }
    assert(y1 == y2);
    if m1 <= m2 {
        lemma_days_within_month(y1, m1, d1, m2, d2);
    } else {
        lemma_days_within_month(y1, m2, d2, m1, d1);
    }
}

/// A date's day-of-year offset is less than the year's length.
proof fn lemma_days_within_year(year: int, month: int, day: int)
    requires
        year >= 1970,
        1 <= month <= 12,
        1 <= day <= month_len(year, month),
    ensures
        0 <= days_before_month(year, month) + day - 1 < year_len(year),
{
    lemma_days_before_month_total(year);
    lemma_days_before_month_mono(year, 1, month);
    lemma_days_before_month_mono(year, month + 1, 13);
}

/// Dates of one year with the same day-of-year offset have the same month.
proof fn lemma_days_within_month(year: int, m1: int, d1: int, m2: int, d2: int)
    requires
        1 <= m1 <= 12,
        1 <= m2 <= 12,
        1 <= d1 <= month_len(year, m1),
        1 <= d2 <= month_len(year, m2),
        days_before_month(year, m1) + d1 == days_before_month(year, m2) + d2,
        m1 <= m2,
    ensures
        m1 == m2 && d1 == d2,
{
    if m1 < m2 {
        lemma_days_before_month_mono(year, m1 + 1, m2);
    }
}

/// A year has 365 days, one more every fourth year, one fewer every
/// hundredth, and one more again every four-hundredth.
pub proof fn lemma_year_len_count(year: int)
    ensures
        year_len(year) == 365 + (if year % 4 == 0 { 1int } else { 0int }) - (if year % 100 == 0 { 1int } else { 0int })
            + (if year % 400 == 0 { 1int } else { 0int }),
{
    if year % 100 == 0 {
        assert(year % 4 == 0) by {
            assert(year == 100 * (year / 100));
        }
    }
    if year % 400 == 0 {
        assert(year % 100 == 0) by {
            assert(year == 400 * (year / 400));
        }
    }
}

/// The month lengths by the knuckle rule: counting January, February, ...
/// along the knuckles and the hollows between them (and starting again at
/// August), a month on a knuckle has 31 days and one in a hollow 30, except
/// February, which has 29 days in a leap year and 28 otherwise.
pub proof fn lemma_month_len_knuckles(year: int, month: int)
    requires
        1 <= month <= 12,
    ensures
        month == 2 ==> month_len(year, month) == (if is_leap_year(year) { 29int } else { 28int }),
        month != 2 ==> month_len(year, month) == 31 - ((month - 1) % 7) % 2,
{
    if month == 1 {
    } else if month == 2 {
    } else if month == 3 {
    } else if month == 4 {
    } else if month == 5 {
    } else if month == 6 {
    } else if month == 7 {
    } else if month == 8 {
    } else if month == 9 {
    } else if month == 10 {
    } else if month == 11 {
    } else {
    }
}

/// Leap-year test of the Gregorian calendar.
pub fn is_leap(year: u64) -> (r: bool)
    ensures
        r == is_leap_year(year as int),
{
    (year % 4 == 0 && year % 100 != 0) || year % 400 == 0
}

/// Number of days in month `month` (1..=12) of `year`.
fn month_days(year: u64, month: u64) -> (r: u64)
    ensures
        r == month_len(year as int, month as int),
{
    if month == 2 {
        if is_leap(year) { 29 } else { 28 }
    } else if month == 4 || month == 6 || month == 9 || month == 11 {
        30
    } else {
        31
    }
}

/// The calendar date (year, month 1..=12, day 1..) that lies `days` days
/// after 1970-01-01.
pub fn days_to_ymd(days: u64) -> (r: (u64, u64, u64))
    ensures
        is_date_of(days as int, r.0 as int, r.1 as int, r.2 as int),
{
    let ghost total = days as int;
    let mut days = days;
    let mut year: u64 = 1970;
    loop
        invariant
            year >= 1970,
            days_before_year(year as int) + days == total,
            total <= u64::MAX,
            (year - 1970) * 365 <= days_before_year(year as int),
        ensures
            days < year_len(year as int),
            days_before_year(year as int) + days == total,
            year >= 1970,
        decreases days,
    {
        let days_in_year: u64 = if is_leap(year) { 366 } else { 365 };
        if days < days_in_year {
            break;
        }
        proof {
            lemma_days_before_year_mono(1970, year as int + 1);
        }
        assert(year < u64::MAX);
        days = days - days_in_year;
        year = year + 1;
    }
    let mut month: u64 = 1;
    proof {
        lemma_days_before_month_total(year as int);
    }
    loop
        invariant
            1 <= month <= 12,
            days_before_month(year as int, month as int) + days < year_len(year as int),
            days_before_year(year as int) + days_before_month(year as int, month as int) + days
                == total,
            year >= 1970,
        ensures
            1 <= month <= 12,
            days < month_len(year as int, month as int),
            days_before_year(year as int) + days_before_month(year as int, month as int) + days
                == total,
        decreases 12 - month,
    {
        let md = month_days(year, month);
        if days < md {
            break;
        }
        proof {
            lemma_days_before_month_total(year as int);
            if month == 12 {
                assert(days_before_month(year as int, 13) == days_before_month(year as int, 12)
                    + month_len(year as int, 12));
            }
        }
        days = days - md;
        month = month + 1;
    }
    (year, month, days + 1)
}

// ── Timestamps ─────────────────────────────────────────────────────

/// The character of a decimal digit.
pub open spec fn digit_char(d: int) -> char {
    (d + 48) as char
}

/// Decimal digits of `n`, most significant first, without leading zeros.
pub open spec fn decimal(n: nat) -> Seq<char>
    decreases n,
{
    if n < 10 {
        seq![digit_char(n as int)]
    } else {
        decimal(n / 10).push(digit_char((n % 10) as int))
    }
}

/// Decimal digits of `n`, left-padded with zeros to at least `width` characters.
pub open spec fn padded(n: nat, width: nat) -> Seq<char> {
    if decimal(n).len() < width {
        Seq::new((width - decimal(n).len()) as nat, |i: int| '0') + decimal(n)
    } else {
        decimal(n)
    }
}

/// The calendar date `days` days after 1970-01-01, as (year, month, day).
pub open spec fn date_of(days: nat) -> (int, int, int) {
    choose|t: (int, int, int)| is_date_of(days as int, t.0, t.1, t.2)
}

/// `YYYY-MM-DDTHH:MM:SSZ` for the UTC instant `secs` seconds after the epoch
/// (no leap seconds).
pub open spec fn timestamp_text(secs: nat) -> Seq<char> {
    let days = secs / 86400;
    let tod = secs % 86400;
    let date = date_of(days);
    padded(date.0 as nat, 4) + seq!['-'] + padded(date.1 as nat, 2) + seq!['-'] + padded(
        date.2 as nat,
        2,
    ) + seq!['T'] + padded(tod / 3600, 2) + seq![':'] + padded((tod % 3600) / 60, 2) + seq![':']
        + padded(tod % 60, 2) + seq!['Z']
}

fn digit(d: u64) -> (c: char)
    requires
        d < 10,
    ensures
        c == digit_char(d as int),
{
    ((d as u8) + 48) as char
}

fn decimal_len(n: u64) -> (r: usize)
    ensures
        r == decimal(n as nat).len(),
    decreases n,
{
    if n < 10 {
        1
    } else {
        let k = decimal_len(n / 10);
        proof {
            reveal_with_fuel(pow10, 21);
            assert(pow10(20) == 100000000000000000000nat);
            lemma_decimal_len_pow(n as nat, 20);
        }
        k + 1
    }
}

/// `decimal(n)` has at most `k` digits when `n < 10^k`.
proof fn lemma_decimal_len_pow(n: nat, k: nat)
    requires
        n < pow10(k),
    ensures
        decimal(n).len() <= k || k == 0,
    decreases n,
{
    if k == 0 {
    } else if n >= 10 {
        assert(n / 10 < pow10((k - 1) as nat)) by (nonlinear_arith)
            requires
                n < pow10(k),
                pow10(k) == 10 * pow10((k - 1) as nat),
                k > 0,
        ;
        lemma_decimal_len_pow(n / 10, (k - 1) as nat);
        if k == 1 {
            assert(pow10(0) == 1);
        }
    }
}

/// Ten to the power `k`.
pub open spec fn pow10(k: nat) -> nat
    decreases k,
{
    if k == 0 {
        1
    } else {
        10 * pow10((k - 1) as nat)
    }
}

pub(crate) fn push_decimal(s: &mut String, n: u64)
    ensures
        final(s)@ == old(s)@ + decimal(n as nat),
    decreases n,
{
    if n >= 10 {
        push_decimal(s, n / 10);
    }
    let c = digit(n % 10);
    push_char(s, c);
    proof {
        if n < 10 {
            assert(n % 10 == n);
        }
    }
}

fn push_padded(s: &mut String, n: u64, width: usize)
    ensures
        final(s)@ == old(s)@ + padded(n as nat, width as nat),
{
    let len = decimal_len(n);
    let ghost start = s@;
    if len < width {
        let mut k: usize = 0;
        while k < width - len
            invariant
                len == decimal(n as nat).len(),
                len < width,
                k <= width - len,
                s@ == start + Seq::new(k as nat, |i: int| '0'),
            decreases width - len - k,
        {
            push_char(s, '0');
            k += 1;
            assert(s@ =~= start + Seq::new(k as nat, |i: int| '0'));
        }
    }
    let ghost mid = s@;
    push_decimal(s, n);
    assert(s@ =~= start + padded(n as nat, width as nat));
}

/// `YYYY-MM-DDTHH:MM:SSZ` for the UTC instant `secs` seconds after the epoch.
pub fn timestamp_from_unix_secs(secs: u64) -> (r: String)
    ensures
        r@ == timestamp_text(secs as nat),
{
    let days = secs / 86400;
    let time_of_day = secs % 86400;
    let hours = time_of_day / 3600;
    let minutes = (time_of_day % 3600) / 60;
    let seconds = time_of_day % 60;
    let (year, month, day) = days_to_ymd(days);
    proof {
        let t = date_of(days as nat);
        assert(is_date_of(days as int, year as int, month as int, day as int));
        assert(is_date_of(days as int, t.0, t.1, t.2));
        lemma_date_unique(days as int, year as int, month as int, day as int, t.0, t.1, t.2);
    }
    let mut s = String::new();
    push_padded(&mut s, year, 4);
    push_char(&mut s, '-');
    push_padded(&mut s, month, 2);
    push_char(&mut s, '-');
    push_padded(&mut s, day, 2);
    push_char(&mut s, 'T');
    push_padded(&mut s, hours, 2);
    push_char(&mut s, ':');
    push_padded(&mut s, minutes, 2);
    push_char(&mut s, ':');
    push_padded(&mut s, seconds, 2);
    push_char(&mut s, 'Z');
    assert(s@ =~= timestamp_text(secs as nat));
    s
}

/// std's `SystemTime`, used opaquely.
#[verifier::external_type_specification]
#[verifier::external_body]
pub struct ExSystemTime(std::time::SystemTime);

/// Reads the system clock by calling std's `SystemTime::now`. Nothing is
/// claimed of the instant: it depends on the machine and the moment.
#[verifier::external_body]
fn system_time_now() -> std::time::SystemTime {
    std::time::SystemTime::now()
}

/// The time from the Unix epoch to `t`, by std's
/// `SystemTime::duration_since(UNIX_EPOCH)`; `None` when `t` lies before the
/// epoch. Nothing more is claimed of the duration.
#[verifier::external_body]
fn since_epoch(t: &std::time::SystemTime) -> Option<std::time::Duration> {
    t.duration_since(std::time::SystemTime::UNIX_EPOCH).ok()
}

/// The whole seconds of a duration, by std's `Duration::as_secs`. Nothing
/// is claimed of the count.
#[verifier::external_body]
fn whole_secs(d: &std::time::Duration) -> u64 {
    d.as_secs()
}

/// The current UTC time as `YYYY-MM-DDTHH:MM:SSZ` (no leap seconds); a clock
/// set before 1970 reads as the epoch.
pub fn chrono_now() -> (r: String)
    ensures
        exists|secs: u64| r@ == timestamp_text(secs as nat),
{
    let now = system_time_now();
    let secs = match since_epoch(&now) {
        Some(d) => whole_secs(&d),
        None => 0,
    };
    timestamp_from_unix_secs(secs)
}

// ── Media files ─────────────────────────────────────────────────────

/// What std's `str::to_lowercase` gives for a string.
pub uninterp spec fn lowercase_of(s: Seq<char>) -> Seq<char>;

/// Characters all below 128.
pub open spec fn ascii_chars(s: Seq<char>) -> bool {
    forall|i: int| 0 <= i < s.len() ==> (s[i] as u32) < 128
}

/// Lower-cases a string by calling std's `str::to_lowercase`; trusted to
/// give `lowercase_of` of the string's characters, a function of those
/// characters alone, and, for ASCII text, each `A`–`Z` mapped to `a`–`z`
/// and every other character kept, as std documents for ASCII.
#[verifier::external_body]
fn to_lowercase(s: &str) -> (r: String)
    ensures
        r@ == lowercase_of(s@),
        ascii_chars(s@) ==> r@ == s@.map_values(|c: char| crate::project::ascii_lower(c)),
{
    s.to_lowercase()
}

/// The file extensions taken for audio media.
pub open spec fn is_media_extension_spec(e: Seq<char>) -> bool {
    e == "mp3"@ || e == "wav"@ || e == "ogg"@ || e == "flac"@ || e == "m4a"@ || e == "aac"@ || e == "wma"@
}

/// Whether a file extension, lower-cased, is one of the audio media
/// extensions (mp3, wav, ogg, flac, m4a, aac, wma).
pub fn is_media_extension(ext: &str) -> (r: bool)
    ensures
        r == is_media_extension_spec(lowercase_of(ext@)),
        ascii_chars(ext@) ==> r == is_media_extension_spec(ext@.map_values(|c: char| crate::project::ascii_lower(c))),
{
    let lower = to_lowercase(ext);
    let e = lower.as_str();
    str_eq(e, "mp3") || str_eq(e, "wav") || str_eq(e, "ogg") || str_eq(e, "flac") || str_eq(e, "m4a")
        || str_eq(e, "aac") || str_eq(e, "wma")
}

} // verus!
