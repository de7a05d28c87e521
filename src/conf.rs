//! Configuration: the service's own settings and those of the routing and
//! image provider, from named variables.

use crate::err::Error;
use vstd::prelude::*;

verus! {

/// Settings of the routing and image provider.
#[derive(Debug)]
pub struct DigitransitConf {
    pub routing_url: String,
    pub img_url: String,
    pub api_key: String,
}

/// Settings of the service itself.
#[derive(Debug)]
pub struct AppConf {
    pub db_url: String,
    pub port: u16,
}

/// The configuration variables as found: `None` for one that is not set.
#[derive(Debug)]
pub struct ConfVars {
    pub database_url: Option<String>,
    pub port: Option<String>,
    pub routing_url: Option<String>,
    pub img_url: Option<String>,
    pub api_key: Option<String>,
}

/// Value of a decimal digit character.
pub open spec fn digit_value(c: char) -> int {
    c as int - '0' as int
}

/// Whether every character of `s` is an ASCII decimal digit.
pub open spec fn all_digits(s: Seq<char>) -> bool {
    forall|i: int| 0 <= i < s.len() ==> '0' <= #[trigger] s[i] <= '9'
}

/// The number that the decimal digits `s` write.
pub open spec fn digits_value(s: Seq<char>) -> int
    decreases s.len(),
{
    if s.len() == 0 {
        0
    } else {
        10 * digits_value(s.drop_last()) + digit_value(s.last())
    }
}

/// What parsing `s` as a `u16` gives: an optional `+`, then at least one
/// decimal digit and nothing else, for a value below `2^16`.
pub open spec fn u16_of(s: Seq<char>) -> Option<int> {
    let body = if s.len() > 0 && s[0] == '+' {
        s.drop_first()
    } else {
        s
    };
    if body.len() > 0 && all_digits(body) && digits_value(body) <= u16::MAX {
        Some(digits_value(body))
    } else {
        None
    }
}

/// Relies on `u16`'s `FromStr` (`str::parse::<u16>`): an optional `+`
/// followed by decimal digits only, of a value that fits; anything else,
/// the empty string included, is an error.
#[verifier::external_body]
fn parse_u16(s: &str) -> (r: Result<u16, String>)
    ensures
        match r {
            Ok(v) => u16_of(s@) == Some(v as int),
            Err(_) => u16_of(s@) is None,
        },
{
    match s.parse::<u16>() {
        Ok(v) => Ok(v),
        Err(e) => Err(e.to_string()),
    }
}

/// The message for a variable that is not set.
pub open spec fn missing_msg(name: Seq<char>) -> Seq<char> {
    "environment variable '"@ + name + "' missing"@
}

/// Why the configuration cannot be built.
pub enum ConfFailure {
    /// The variable of this name is not set.
    Missing(Seq<char>),
    /// The port is not a `u16`.
    BadPort,
}

/// The first reason, in the order in which the variables are read, why the
/// configuration cannot be built from `v`; `None` when nothing fails.
pub open spec fn conf_failure(v: ConfVars) -> Option<ConfFailure> {
    if v.database_url is None {
        Some(ConfFailure::Missing("DATABASE_URL"@))
    } else if v.port is None {
        Some(ConfFailure::Missing("PORT"@))
    } else if u16_of(v.port.unwrap()@) is None {
        Some(ConfFailure::BadPort)
    } else if v.routing_url is None {
        Some(ConfFailure::Missing("DIGITRANSIT_ROUTING_URL"@))
    } else if v.img_url is None {
        Some(ConfFailure::Missing("DIGITRANSIT_IMG_URL"@))
    } else if v.api_key is None {
        Some(ConfFailure::Missing("DIGITRANSIT_API_KEY"@))
    } else {
        None
    }
}

fn require_var(name: &str, value: Option<String>) -> (r: Result<String, Error>)
    ensures
        match value {
            Some(s) => r == Ok::<String, Error>(s),
            None => r matches Err(Error::Other(m)) && m@ == missing_msg(name@),
        },
{
    match value {
        Some(s) => Ok(s),
        None => {
            let mut m = String::from_str("environment variable '");
            m.append(name);
            m.append("' missing");
            Err(Error::Other(m))
        },
    }
}

/// The service's and the provider's settings from the variables `v`. The
/// first variable that fails, as `conf_failure` orders them, gives the
/// error: "environment variable '<name>' missing" for a missing one, the
/// parser's message for a bad port.
pub fn get_conf(v: ConfVars) -> (r: Result<(AppConf, DigitransitConf), Error>)
    ensures
        match r {
            Ok((a, d)) => conf_failure(v) is None && Some(a.db_url) == v.database_url && u16_of(
                v.port.unwrap()@,
            ) == Some(a.port as int) && Some(d.routing_url) == v.routing_url && Some(d.img_url)
                == v.img_url && Some(d.api_key) == v.api_key,
            Err(Error::Other(m)) => conf_failure(v) matches Some(f) && (f matches ConfFailure::Missing(
                name,
            ) ==> m@ == missing_msg(name)),
            Err(_) => false,
        },
{
    let ghost v0 = v;
    let ConfVars { database_url, port, routing_url, img_url, api_key } = v;
    let db_url = require_var("DATABASE_URL", database_url)?;
    let port_text = require_var("PORT", port)?;
    let port = match parse_u16(port_text.as_str()) {
        Ok(p) => p,
        Err(e) => {
            return Err(Error::Other(e));
        },
    };
    let routing_url = require_var("DIGITRANSIT_ROUTING_URL", routing_url)?;
    let img_url = require_var("DIGITRANSIT_IMG_URL", img_url)?;
    let api_key = require_var("DIGITRANSIT_API_KEY", api_key)?;
    Ok((AppConf { db_url, port }, DigitransitConf { routing_url, img_url, api_key }))
}

} // verus!
