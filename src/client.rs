//! Requests to the weather service's JSON API: its root, the paths of its
//! endpoints and the bounds of its query parameters.

use vstd::prelude::*;
use vstd::string::*;

verus! {

/// The root of the weather service's API.
pub const ROOT: &'static str = "https://api.weather.gov";

/// The strftime-style pattern of times sent in queries.
pub const DATETIME_FMT: &'static str = "%Y-%m-%dT%H:%M:%S%.3f%:z";

/// The smallest and largest number of results a query may ask for.
pub const MIN_LIMIT: usize = 1;
pub const MAX_LIMIT: usize = 500;

/// The digit `d` as text.
pub open spec fn digit_text(d: nat) -> Seq<char> {
    if d == 0 {
        "0"@
    } else if d == 1 {
        "1"@
    } else if d == 2 {
        "2"@
    } else if d == 3 {
        "3"@
    } else if d == 4 {
        "4"@
    } else if d == 5 {
        "5"@
    } else if d == 6 {
        "6"@
    } else if d == 7 {
        "7"@
    } else if d == 8 {
        "8"@
    } else if d == 9 {
        "9"@
    } else {
        "9"@
    }
}

/// `n` written in decimal, without leading zeros.
pub open spec fn decimal_digits(n: nat) -> Seq<char>
    decreases n,
{
    if n < 10 {
        digit_text(n)
    } else {
        decimal_digits(n / 10) + digit_text(n % 10)
    }
}

fn digit_str(d: usize) -> (r: &'static str)
    requires
        d < 10,
    ensures
        r@ == digit_text(d as nat),
{
        if d == 0 {
            "0"
        } else if d == 1 {
            "1"
        } else if d == 2 {
            "2"
        } else if d == 3 {
            "3"
        } else if d == 4 {
            "4"
        } else if d == 5 {
            "5"
        } else if d == 6 {
            "6"
        } else if d == 7 {
            "7"
        } else if d == 8 {
            "8"
        } else if d == 9 {
            "9"
        } else {
            "9"
        }
}

/// `n` written in decimal.
pub fn decimal_text(n: usize) -> (r: String)
    ensures
        r@ == decimal_digits(n as nat),
    decreases n,
{
    if n < 10 {
        String::from_str(digit_str(n))
    } else {
        let mut r = decimal_text(n / 10);
        r.append(digit_str(n % 10));
        r
    }
}

/// The number of results to ask for: `limit` brought within the bounds the API accepts.
pub fn clamp_limit(limit: usize) -> (r: usize)
    ensures
        r == if limit < MIN_LIMIT {
            MIN_LIMIT
        } else if limit > MAX_LIMIT {
            MAX_LIMIT
        } else {
            limit
        },
{
    if limit < MIN_LIMIT {
        MIN_LIMIT
    } else if limit > MAX_LIMIT {
        MAX_LIMIT
    } else {
        limit
    }
}

/// The full URL of an endpoint path.
pub fn endpoint_url(path: &str) -> (r: String)
    ensures
        r@ == ROOT@ + path@,
{
    let mut r = String::from_str(ROOT);
    r.append(path);
    r
}

/// The forecast grid square `x`,`y` of forecast office `office`.
pub fn gridpoints_path(office: &str, x: usize, y: usize) -> (r: String)
    ensures
        r@ == "/gridpoints/"@ + office@ + "/"@ + decimal_digits(x as nat) + ","@ + decimal_digits(
            y as nat,
        ),
{
    let mut r = String::from_str("/gridpoints/");
    r.append(office);
    r.append("/");
    let xs = decimal_text(x);
    r.append(xs.as_str());
    r.append(",");
    let ys = decimal_text(y);
    r.append(ys.as_str());
    r
}

/// The observation stations that serve a forecast grid square.
pub fn gridpoints_stations_path(office: &str, x: usize, y: usize) -> (r: String)
    ensures
        r@ == "/gridpoints/"@ + office@ + "/"@ + decimal_digits(x as nat) + ","@ + decimal_digits(
            y as nat,
        ) + "/stations"@,
{
    let mut r = gridpoints_path(office, x, y);
    r.append("/stations");
    r
}

/// One observation station.
pub fn station_path(id: &str) -> (r: String)
    ensures
        r@ == "/stations/"@ + id@,
{
    let mut r = String::from_str("/stations/");
    r.append(id);
    r
}

/// The observations of a station.
pub fn observations_path(id: &str) -> (r: String)
    ensures
        r@ == "/stations/"@ + id@ + "/observations"@,
{
    let mut r = station_path(id);
    r.append("/observations");
    r
}

/// The latest observation of a station.
pub fn latest_observation_path(id: &str) -> (r: String)
    ensures
        r@ == "/stations/"@ + id@ + "/observations"@ + "/latest"@,
{
    let mut r = observations_path(id);
    r.append("/latest");
    r
}

/// The observation of a station at a time, given as formatted text.
pub fn observation_at_path(id: &str, time: &str) -> (r: String)
    ensures
        r@ == "/stations/"@ + id@ + "/observations"@ + "/"@ + time@,
{
    let mut r = observations_path(id);
    r.append("/");
    r.append(time);
    r
}

} // verus!
