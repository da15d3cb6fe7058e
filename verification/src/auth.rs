use vstd::prelude::*;

use std::rc::Rc;

use crate::text::{chars_of, string_of};

verus! {

/// How many days a token stays valid after it is issued.
pub const TOKEN_LIFETIME_DAYS: i64 = 2;

/// The claims that a session token carries: whom it names and until when it
/// is valid.
#[derive(Debug)]
pub struct Claims {
    /// The subject, the user's email.
    pub sub: String,
    /// When the token expires, in seconds since the Unix epoch.
    pub exp: usize,
}

/// What a user sends to log in.
#[derive(Debug)]
pub struct LoginRequest {
    pub email: String,
    pub password: String,
}

/// What chrono gives for the Unix time `secs` moved `days` days later, or
/// `None` where either instant lies outside chrono's range of dates.
pub uninterp spec fn utc_days_later(secs: i64, days: i64) -> Option<i64>;

/// The first second that chrono represents: January 1 of the year -262143,
/// 00:00:00 UTC (`NaiveDate::MIN`), as Unix time.
pub open spec fn earliest_timestamp() -> int {
    -8334601228800
}

/// The last whole second that chrono represents: December 31, 262142,
/// 23:59:59 UTC (`NaiveDate::MAX`), as Unix time.
pub open spec fn latest_timestamp() -> int {
    8210266876799
}

/// Both `secs` and the time `days` days later lie in chrono's dates.
pub open spec fn shift_in_calendar(secs: i64, days: i64) -> bool {
    in_calendar(secs as int) && in_calendar(secs + days * 86400)
}

/// A Unix time in seconds that chrono can represent.
pub open spec fn in_calendar(t: int) -> bool {
    earliest_timestamp() <= t <= latest_timestamp()
}

/// `DateTime::<Utc>::from_timestamp(secs, 0)` followed by
/// `checked_add_signed(TimeDelta::days(days))` and `timestamp()`.  chrono
/// counts Unix time in non-leap seconds, so a result lies exactly
/// `days * 86400` seconds later.  chrono answers `None` exactly when the start
/// or the end lies outside its dates, `NaiveDate::MIN` to `NaiveDate::MAX`
/// (`from_timestamp` and `NaiveDate::add_days` check the range).
/// `TimeDelta::days` panics unless `days * 86400` is within `i64::MAX / 1000`
/// seconds either way.
#[verifier::external_body]
fn timestamp_days_later(secs: i64, days: i64) -> (r: Option<i64>)
    requires
        -9223372036854775 <= days * 86400 <= 9223372036854775,
    ensures
        r == utc_days_later(secs, days),
        r matches Some(t) ==> t == secs + days * 86400,
        r is Some <==> shift_in_calendar(secs, days),
{
    match chrono::DateTime::from_timestamp(secs, 0) {
        Some(start) => match start.checked_add_signed(chrono::TimeDelta::days(days)) {
            Some(end) => Some(end.timestamp()),
            None => None,
        },
        None => None,
    }
}

/// `chrono::Utc::now().timestamp()`: the current Unix time, in seconds.
/// It depends on the clock, so nothing is stated of it.
#[verifier::external_body]
fn utc_now_timestamp() -> i64 {
    chrono::Utc::now().timestamp()
}

/// What `Claims::issue` gives for `subject` at time `now`.
pub open spec fn issued_claims(subject: Seq<char>, now: i64, r: Option<Claims>) -> bool {
    match utc_days_later(now, TOKEN_LIFETIME_DAYS) {
        Some(t) => r matches Some(c) && c.sub@ == subject && c.exp == t as usize,
        None => r is None,
    }
}

impl Claims {
    /// The claims of a token issued to `subject` at Unix time `now`: valid for
    /// `TOKEN_LIFETIME_DAYS` days.  `None` where chrono cannot represent the
    /// expiry.
    pub fn issue(subject: &str, now: i64) -> (r: Option<Claims>)
        ensures
            issued_claims(subject@, now, r),
            r matches Some(c) ==> c.exp == (now + TOKEN_LIFETIME_DAYS * 86400) as usize,
            r is Some <==> shift_in_calendar(now, TOKEN_LIFETIME_DAYS),
    {
        match timestamp_days_later(now, TOKEN_LIFETIME_DAYS) {
            Some(expiration) => Some(Claims { sub: subject.to_owned(), exp: expiration as usize }),
            None => None,
        }
    }

    /// The claims of a token issued to `subject` now, by the system clock.
    pub fn issue_now(subject: &str) -> (r: Option<Claims>)
        ensures
            r matches Some(c) ==> c.sub@ == subject@,
            exists|now: i64| issued_claims(subject@, now, r),
    {
        let now = utc_now_timestamp();
        Claims::issue(subject, now)
    }
}

/// The scheme that an Authorization header names before a bearer token.
pub open spec fn bearer_prefix() -> Seq<char> {
    "Bearer "@
}

/// The token that an Authorization header carries: what follows "Bearer ",
/// if the header starts with it.
pub open spec fn bearer_token_of(header: Seq<char>) -> Option<Seq<char>> {
    if bearer_prefix().is_prefix_of(header) {
        Some(header.subrange(bearer_prefix().len() as int, header.len() as int))
    } else {
        None
    }
}

/// Guards the routes that need a session.  It takes the token from an
/// Authorization header "Bearer <token>"; whether the token's signature and
/// expiry are valid is checked by the server, outside this library.
#[derive(Debug, Clone, Copy)]
pub struct JwtAuthMiddleware;

impl JwtAuthMiddleware {
    /// Wraps `service` so that requests reach it only through the guard.
    pub fn new_transform<S>(&self, service: S) -> (m: JwtAuthMiddlewareMiddleware<S>)
        ensures
            m.service() == service,
    {
        JwtAuthMiddlewareMiddleware { service: Rc::new(service) }
    }

    /// The token to validate for a request whose Authorization header reads
    /// `header`; `None`, and so a refusal, when it does not start with "Bearer ".
    pub fn bearer_token(header: &str) -> (t: Option<String>)
        ensures
            t.is_some() == bearer_token_of(header@).is_some(),
            t matches Some(tok) ==> bearer_token_of(header@) == Some(tok@),
    {
        let cs = chars_of(header);
        let prefix = chars_of("Bearer ");
        if cs.len() < prefix.len() {
            return None;
        }
        let mut i: usize = 0;
        while i < prefix.len()
            invariant
                prefix@ == bearer_prefix(),
                cs@ == header@,
                prefix@.len() <= cs@.len(),
                i <= prefix@.len(),
                forall|j: int| 0 <= j < i ==> prefix@[j] == cs@[j],
            decreases prefix.len() - i,
        {
            if prefix[i] != cs[i] {
                assert(!bearer_prefix().is_prefix_of(header@)) by {
                    assert(header@[i as int] != bearer_prefix()[i as int]);
                }
                return None;
            }
            i = i + 1;
        }
        assert(bearer_prefix().is_prefix_of(header@)) by {
            assert(header@.subrange(0, bearer_prefix().len() as int) =~= bearer_prefix());
        }
        Some(string_of(&cs, prefix.len(), cs.len()))
    }
}

/// The service behind the check, as `JwtAuthMiddleware` wraps it.
pub struct JwtAuthMiddlewareMiddleware<S> {
    service: Rc<S>,
}

impl<S> JwtAuthMiddlewareMiddleware<S> {
    /// The wrapped service.
    pub closed spec fn service(&self) -> S {
        *self.service
    }

    /// The wrapped service, to which admitted requests are passed.
    pub fn inner(&self) -> (s: &Rc<S>)
        ensures
            **s == self.service(),
    {
        &self.service
    }
}

} // verus!
