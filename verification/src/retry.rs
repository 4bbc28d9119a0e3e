//! When a failed request to the model is repeated, and after how long.
use crate::numbers::{
    decimal, is_digit, law_decimal_round_trip, law_signed_digits, parse_unsigned, read_unsigned,
    signed_decimal,
};
use crate::text::{law_trimmed_stays, trim, trimmed};
use vstd::prelude::*;

verus! {

/// The statuses of a reply after which the same request may succeed: a timeout, a limit, and every
/// failure of the server.
pub open spec fn retryable_status(code: u16) -> bool {
    code == 408 || code == 429 || 500 <= code <= 599
}

/// Tells whether a request is repeated after a status.
pub fn http_status_retryable(code: u16) -> (r: bool)
    ensures
        r == retryable_status(code),
{
    code == 408 || code == 429 || (500 <= code && code <= 599)
}

/// What a request that got no reply failed with.
#[derive(Clone, Copy, PartialEq, Eq, Structural)]
pub struct NetworkError {
    pub timeout: bool,
    pub connect: bool,
    pub status: Option<u16>,
}

/// A request is repeated after an error of the network.
pub open spec fn retryable_error(e: NetworkError) -> bool {
    e.timeout || e.connect || (e.status matches Some(code) && retryable_status(code))
}

/// Tells whether a request is repeated after an error of the network.
pub fn reqwest_error_retryable(e: NetworkError) -> (r: bool)
    ensures
        r == retryable_error(e),
{
    if e.timeout || e.connect {
        return true;
    }
    match e.status {
        Some(code) => http_status_retryable(code),
        None => false,
    }
}

/// The seconds that the server asks to wait, where it says so in digits.
pub open spec fn asked_wait(header: Option<Seq<char>>) -> Option<nat> {
    match header {
        Some(s) => parse_unsigned(trimmed(s), u64::MAX as nat),
        None => None,
    }
}

/// Reads the seconds that the server asks to wait.
pub fn parse_retry_after_seconds(header: Option<&str>) -> (r: Option<u64>)
    ensures
        match r {
            Some(n) => asked_wait(
                match header {
                    Some(s) => Some(s@),
                    None => None,
                },
            ) == Some(n as nat),
            None => asked_wait(
                match header {
                    Some(s) => Some(s@),
                    None => None,
                },
            ) is None,
        },
{
    match header {
        Some(s) => read_unsigned(trim(s).as_str(), u64::MAX),
        None => None,
    }
}

/// A number of seconds between one and five minutes.
pub open spec fn bearable(n: int) -> int {
    if n < 1 {
        1
    } else if n > 300 {
        300
    } else {
        n
    }
}

/// The seconds until the next attempt as far as the host decides: five minutes at most, and from the
/// fifth failure in a row on 45 more than `asked`.
pub open spec fn own_wait(asked: int, consecutive_fails: int) -> int {
    if consecutive_fails >= 5 {
        bearable(bearable(asked) + 45)
    } else {
        bearable(asked)
    }
}

/// The seconds until the next attempt. Where the server asks for a wait, it is no shorter than that,
/// however long that is; elsewhere it comes from `backoff`.
pub open spec fn wait_secs(backoff: int, consecutive_fails: int, retry_after: Option<int>) -> int {
    match retry_after {
        Some(n) => if n > own_wait(n, consecutive_fails) {
            n
        } else {
            own_wait(n, consecutive_fails)
        },
        None => own_wait(backoff, consecutive_fails),
    }
}

fn host_wait(asked: u64, consecutive_fails: u32) -> (r: u64)
    ensures
        r == own_wait(asked as int, consecutive_fails as int),
{
    let base: u64 = if asked < 1 {
        1
    } else if asked > 300 {
        300
    } else {
        asked
    };
    if consecutive_fails < 5 {
        base
    } else if base + 45 > 300 {
        300
    } else {
        base + 45
    }
}

/// The seconds until the next attempt. What the server asks for is respected.
pub fn calc_backoff_sleep_secs(
    backoff: u64,
    consecutive_fails: u32,
    retry_after: Option<u64>,
) -> (r: u64)
    ensures
        r == wait_secs(
            backoff as int,
            consecutive_fails as int,
            match retry_after {
                Some(n) => Some(n as int),
                None => None,
            },
        ),
        retry_after matches Some(n) ==> r >= n,
{
    match retry_after {
        Some(n) => {
            let own: u64 = host_wait(n, consecutive_fails);
            if n > own {
                n
            } else {
                own
            }
        },
        None => host_wait(backoff, consecutive_fails),
    }
}

/// The wait before the next attempt doubles up to two minutes.
pub open spec fn next_backoff(backoff: int) -> int {
    if 2 * backoff > 120 {
        120
    } else {
        2 * backoff
    }
}

/// Doubles the wait before the next attempt.
pub fn double_backoff(backoff: u64) -> (r: u64)
    ensures
        r == next_backoff(backoff as int),
{
    if backoff > 60 {
        120
    } else {
        2 * backoff
    }
}

/// Between two attempts lies at least a second, and never less than the server asks for, whatever the
/// wait of the host's own. Only the server makes it longer than five minutes, and then it is just
/// what the server asks for.
pub proof fn law_wait_is_bounded(
    backoff: int,
    other: int,
    consecutive_fails: int,
    retry_after: Option<int>,
)
    ensures
        1 <= wait_secs(backoff, consecutive_fails, retry_after),
        retry_after is None ==> wait_secs(backoff, consecutive_fails, retry_after) <= 300,
        retry_after matches Some(n) ==> {
            &&& n <= wait_secs(backoff, consecutive_fails, retry_after)
            &&& wait_secs(backoff, consecutive_fails, retry_after) <= 300 || wait_secs(
                backoff,
                consecutive_fails,
                retry_after,
            ) == n
            &&& wait_secs(backoff, consecutive_fails, retry_after) == wait_secs(
                other,
                consecutive_fails,
                retry_after,
            )
        },
{
}

/// More failures never make the wait shorter.
pub proof fn law_wait_grows(backoff: int, fails: int, more_fails: int, retry_after: Option<int>)
    requires
        fails <= more_fails,
    ensures
        wait_secs(backoff, fails, retry_after) <= wait_secs(backoff, more_fails, retry_after),
{
}

/// The wait never grows beyond two minutes, and never shrinks while it is within them.
pub proof fn law_backoff_grows(backoff: int)
    requires
        1 <= backoff <= 120,
    ensures
        backoff <= next_backoff(backoff) <= 120,
{
}

/// Up to the fourth failure the host waits as long as its own wait says; from the fifth on 45 seconds
/// longer, up to five minutes.
pub proof fn law_circuit_breaker(backoff: int, consecutive_fails: int)
    requires
        1 <= backoff <= 300,
    ensures
        consecutive_fails < 5 ==> wait_secs(backoff, consecutive_fails, None) == backoff,
        consecutive_fails >= 5 && backoff <= 255 ==> wait_secs(backoff, consecutive_fails, None)
            == backoff + 45,
        consecutive_fails >= 5 && backoff > 255 ==> wait_secs(backoff, consecutive_fails, None)
            == 300,
        backoff <= 60 ==> next_backoff(backoff) == 2 * backoff,
        backoff > 60 ==> next_backoff(backoff) == 120,
{
}

/// A wait that the server asks for in digits is read as that number of seconds, with or without white
/// space around it, and up to five minutes before the fifth failure it is just what is waited.
pub proof fn law_asked_wait(n: nat, backoff: int, consecutive_fails: int)
    requires
        n <= u64::MAX,
    ensures
        asked_wait(Some(decimal(n))) == Some(n),
        asked_wait(None) is None,
        n >= 1 && consecutive_fails < 5 ==> wait_secs(backoff, consecutive_fails, Some(n as int))
            == n,
{
    law_decimal_round_trip(n, u64::MAX as nat);
    law_signed_digits(n as int);
    let s = decimal(n);
    assert(signed_decimal(n as int) == s);
    assert(is_digit(s[0]));
    assert(is_digit(s[s.len() - 1]));
    law_trimmed_stays(s);
}

/// A request is repeated after a timeout, a failed connection, and the statuses after which the same
/// request may succeed.
pub proof fn law_repeated_requests(e: NetworkError, code: u16)
    ensures
        retryable_error(e) <==> e.timeout || e.connect || (e.status matches Some(c) && (c == 408
            || c == 429 || (500 <= c && c <= 599))),
        retryable_status(code) <==> code == 408 || code == 429 || (500 <= code && code <= 599),
{
}

/// What the server asks for is read with white space around it too; from the fifth failure on it is
/// waited 45 seconds longer, as far as that stays within five minutes.
pub proof fn law_asked_wait_is_kept(s: Seq<char>, n: nat, backoff: int, consecutive_fails: int)
    requires
        n <= u64::MAX,
        trimmed(s) == decimal(n),
    ensures
        asked_wait(Some(s)) == Some(n),
        consecutive_fails >= 5 && 1 <= n <= 255 ==> wait_secs(
            backoff,
            consecutive_fails,
            Some(n as int),
        ) == n + 45,
        consecutive_fails >= 5 && 255 < n <= 300 ==> wait_secs(
            backoff,
            consecutive_fails,
            Some(n as int),
        ) == 300,
        n > 300 ==> wait_secs(backoff, consecutive_fails, Some(n as int)) == n,
        n == 0 && consecutive_fails < 5 ==> wait_secs(backoff, consecutive_fails, Some(0)) == 1,
{
    law_decimal_round_trip(n, u64::MAX as nat);
}

} // verus!
