use vstd::prelude::*;
use chrono::{NaiveDateTime, TimeZone};
use chrono_tz::TZ_VARIANTS;

verus! {

/// The name of the time zone at `index` in `chrono_tz::TZ_VARIANTS`, or
/// `None` past the end of that array.
pub uninterp spec fn tz_variant_name(index: usize) -> Option<Seq<char>>;

/// The time `millis` milliseconds after the Unix epoch, in the time zone at
/// `tz_index` of `TZ_VARIANTS`, written with the pattern
/// `"%A %d %B %Y (%d/%m/%Y) WK %U"`.
pub uninterp spec fn zoned_date_text(tz_index: usize, millis: i64) -> Option<Seq<char>>;

/// The same time written with the pattern `"%H%M%S"`.
pub uninterp spec fn zoned_time_text(tz_index: usize, millis: i64) -> Option<Seq<char>>;

/// The first millisecond that `chrono` holds: -262143-01-01T00:00:00Z.
pub const MIN_TIMESTAMP_MILLIS: i64 = -8334601228800000;

/// The last millisecond that `chrono` holds: +262142-12-31T23:59:59.999Z.
pub const MAX_TIMESTAMP_MILLIS: i64 = 8210266876799999;

/// `chrono`'s `NaiveDateTime::from_timestamp_millis(millis)` gives a date:
/// the instant lies between the first day of year -262143 and the last day
/// of year 262142, the range of `chrono`'s dates.
pub open spec fn timestamp_millis_in_range(millis: i64) -> bool {
    MIN_TIMESTAMP_MILLIS <= millis <= MAX_TIMESTAMP_MILLIS
}

/// `s` is six ASCII digits.
pub open spec fn six_digits(s: Seq<char>) -> bool {
    s.len() == 6 && forall|i: int| 0 <= i < 6 ==> '0' <= #[trigger] s[i] <= '9'
}

/// `TZ_VARIANTS.get(index)` and the zone's `name()`. `TZ_VARIANTS` is an
/// array, so past the first index without a zone there is none: the contract
/// claims this, and names the result.
#[verifier::external_body]
fn tz_variant_name_at(index: usize) -> (r: Option<String>)
    ensures
        r matches Some(n) ==> tz_variant_name(index) == Some(n@),
        r is None ==> forall|j: usize| j >= index ==> tz_variant_name(j) is None,
{
    TZ_VARIANTS.get(index).map(|tz| tz.name().to_string())
}

/// `NaiveDateTime::from_timestamp_millis`, then `from_utc_datetime` of the
/// zone at `tz_index` of `TZ_VARIANTS`, then `format` with the date pattern.
/// There is a result exactly when there is such a zone and the instant is in
/// `chrono`'s range (`DateTime::from_timestamp` refuses days outside the
/// range of `NaiveDate`, years -262143 to 262142); its text is named.
#[verifier::external_body]
fn format_zoned_date(tz_index: usize, millis: i64) -> (r: Option<String>)
    ensures
        r is Some <==> (tz_variant_name(tz_index) is Some && timestamp_millis_in_range(millis)),
        r matches Some(s) ==> zoned_date_text(tz_index, millis) == Some(s@),
        r is None ==> zoned_date_text(tz_index, millis) is None,
{
    #[allow(deprecated)]
    let utc = NaiveDateTime::from_timestamp_millis(millis)?;
    let tz = TZ_VARIANTS.get(tz_index)?;
    Some(format!("{}", tz.from_utc_datetime(&utc).format("%A %d %B %Y (%d/%m/%Y) WK %U")))
}

/// As `format_zoned_date`, with the pattern `"%H%M%S"`. `chrono` documents
/// `%H`, `%M` and `%S` as numbers zero-padded to two digits, so the text is
/// six ASCII digits: the contract claims this.
#[verifier::external_body]
fn format_zoned_time(tz_index: usize, millis: i64) -> (r: Option<String>)
    ensures
        r is Some <==> (tz_variant_name(tz_index) is Some && timestamp_millis_in_range(millis)),
        r matches Some(s) ==> zoned_time_text(tz_index, millis) == Some(s@) && six_digits(s@),
        r is None ==> zoned_time_text(tz_index, millis) is None,
{
    #[allow(deprecated)]
    let utc = NaiveDateTime::from_timestamp_millis(millis)?;
    let tz = TZ_VARIANTS.get(tz_index)?;
    Some(format!("{}", tz.from_utc_datetime(&utc).format("%H%M%S")))
}

/// Equality of two character sequences, character by character.
pub(crate) fn same_text(a: &str, b: &str) -> (r: bool)
    ensures
        r == (a@ == b@),
{
    let n: usize = a.unicode_len();
    if n != b.unicode_len() {
        return false;
    }
    for i in 0..n
        invariant
            n == a@.len(),
            n == b@.len(),
            forall|j: int| 0 <= j < i ==> a@[j] == b@[j],
    {
        if a.get_char(i) != b.get_char(i) {
            return false;
        }
    }
    assert(a@ =~= b@);
    true
}

/// The index in `TZ_VARIANTS` of the first time zone called `name`, or
/// `None` where no zone has that name.
pub fn find_time_zone(name: &str) -> (r: Option<usize>)
    ensures
        r matches Some(i) ==> tz_variant_name(i) == Some(name@)
            && forall|j: usize| j < i ==> tz_variant_name(j) != Some(name@),
        r is None ==> forall|j: usize| tz_variant_name(j) != Some(name@),
{
    let mut i: usize = 0;
    loop
        invariant
            forall|j: usize| j < i ==> tz_variant_name(j) != Some(name@),
        decreases usize::MAX - i,
    {
        match tz_variant_name_at(i) {
            None => {
                return None;
            },
            Some(candidate) => {
                if same_text(candidate.as_str(), name) {
                    return Some(i);
                }
            },
        }
        if i == usize::MAX {
            return None;
        }
        i = i + 1;
    }
}

/// The date and the time of day that the clock shows at `millis`
/// milliseconds after the epoch in the time zone at `tz_index`; `None` where
/// `chrono` cannot convert the instant or there is no such zone.
pub fn clock_texts(tz_index: usize, millis: i64) -> (r: Option<(String, String)>)
    ensures
        r is Some <==> (tz_variant_name(tz_index) is Some && timestamp_millis_in_range(millis)),
        r matches Some(t) ==> zoned_date_text(tz_index, millis) == Some(t.0@)
            && zoned_time_text(tz_index, millis) == Some(t.1@) && six_digits(t.1@),
{
    let date = format_zoned_date(tz_index, millis);
    let time = format_zoned_time(tz_index, millis);
    match (date, time) {
        (Some(d), Some(t)) => Some((d, t)),
        _ => None,
    }
}

/// The clock's time now: the time that the server gave, plus the time that
/// has passed on the local timer since it was asked, in milliseconds.
pub fn current_clock_millis(request_clock: i64, request_millis: i64, now_millis: i64) -> (r: i64)
    requires
        i64::MIN <= now_millis - request_millis <= i64::MAX,
        i64::MIN <= request_clock + (now_millis - request_millis) <= i64::MAX,
    ensures
        r == request_clock + (now_millis - request_millis),
{
    let difference: i64 = now_millis - request_millis;
    request_clock + difference
}

} // verus!
