//! The answer to a request for the current record: the record of the
//! window, resolved for the requested locale, and how long it stays current.
use crate::bird::{is_view_of, locale_of, Bird, BirdResult, Locale};
use crate::catalog::{decimal, decimal_text};
use crate::rotation::{eligible, remaining, remaining_of, select, selection, texts, window_of};
use vstd::prelude::*;
use vstd::string::StringExecFns;

verus! {

/// The current record and the seconds for which it stays the current one.
#[derive(Debug, PartialEq, Eq)]
pub struct Current {
    pub max_age: u64,
    pub view: BirdResult,
}

/// The locale that a request asks for: the one its code names, or none where
/// it gives no code or one that names no locale.
pub open spec fn requested(code: Option<&String>) -> Option<Locale> {
    match code {
        Some(c) => locale_of(c@),
        None => None,
    }
}

/// The `Cache-Control` text that lets caches keep an answer for `max_age`
/// seconds.
pub open spec fn cache_control_of(max_age: u64) -> Seq<char> {
    "public, max-age="@ + decimal(max_age as int)
}

/// The `Cache-Control` text that lets caches keep an answer for `max_age`
/// seconds.
pub fn cache_control(max_age: u64) -> (r: String)
    ensures
        r@ == cache_control_of(max_age),
{
    let seconds = decimal_text(max_age as i128);
    String::from_str("public, max-age=").concat(seconds.as_str())
}

/// Answers a request made at the second `now`.
///
/// The answer is the window's selection among the records of `pool` that
/// pass `allowed_set`, resolved for the locale that `locale` names, together
/// with the seconds left in the window; or nothing where no record passes
/// the filter.
pub fn current(
    now: u64,
    interval: u64,
    pool: &Vec<Bird>,
    locale: Option<&String>,
    allowed_set: &Vec<String>,
) -> (r: Option<Current>)
    requires
        interval > 0,
    ensures
        match r {
            Some(c) => {
                let at = selection(window_of(now, interval), pool@, texts(allowed_set@));
                &&& at is Some
                &&& at->0 < pool.len()
                &&& is_view_of(c.view, pool[at->0 as int], requested(locale))
                &&& c.max_age == remaining_of(now, interval)
            },
            None => selection(window_of(now, interval), pool@, texts(allowed_set@)) is None,
        },
        r is Some <==> exists|i: int|
            0 <= i < pool.len() && eligible(#[trigger] pool[i].master.set@, texts(allowed_set@)),
{
    let wanted = match locale {
        Some(code) => Locale::try_from_code(code.as_str()),
        None => None,
    };
    match select(now, interval, pool, allowed_set) {
        Some(chosen) => Some(Current { max_age: remaining(now, interval), view: chosen.produce(wanted) }),
        None => None,
    }
}

} // verus!
