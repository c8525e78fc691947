//! The parameters of the database connection, and the rules by which they
//! are taken from what the deployment supplies.

use vstd::prelude::*;
use vstd::string::StrSliceExecFns;

verus! {

/// A connection parameter that has to be supplied.
#[derive(Debug, Clone, Copy, PartialEq, Eq, Structural)]
pub enum Parameter {
    Host,
    Port,
    User,
    Password,
}

impl Parameter {
    /// The name under which the deployment supplies the parameter.
    pub open spec fn spec_name(self) -> Seq<char> {
        match self {
            Parameter::Host => "WG_CYPHER_HOST"@,
            Parameter::Port => "WG_CYPHER_PORT"@,
            Parameter::User => "WG_CYPHER_USER"@,
            Parameter::Password => "WG_CYPHER_PASS"@,
        }
    }

    /// The name under which the deployment supplies the parameter.
    pub fn name(&self) -> (name: &'static str)
        ensures
            name@ == self.spec_name(),
    {
        match self {
            Parameter::Host => "WG_CYPHER_HOST",
            Parameter::Port => "WG_CYPHER_PORT",
            Parameter::User => "WG_CYPHER_USER",
            Parameter::Password => "WG_CYPHER_PASS",
        }
    }
}

/// Why no connection parameters could be had.
#[derive(Debug, Clone, Copy, PartialEq, Eq, Structural)]
pub enum EndpointError {
    /// The parameter was not supplied, or what was supplied cannot be read.
    MissingParameter(Parameter),
}

/// What the deployment supplies, each value as text or not at all.
#[derive(Debug, Clone, PartialEq, Eq)]
pub struct EndpointSource {
    pub host: Option<String>,
    pub read_replicas: Option<String>,
    pub port: Option<String>,
    pub user: Option<String>,
    pub password: Option<String>,
    pub pool_size: Option<String>,
}

/// The parameters of a connection pool.
#[derive(Debug, Clone, PartialEq, Eq)]
pub struct EndpointParams {
    pub host: String,
    pub read_host: String,
    pub port: u16,
    pub user: String,
    pub password: String,
    pub pool_size: u16,
}

/// `c` is a decimal digit.
pub open spec fn is_digit(c: char) -> bool {
    '0' <= c <= '9'
}

/// Every character is a decimal digit.
pub open spec fn all_digits(text: Seq<char>) -> bool {
    forall|i: int| 0 <= i < text.len() ==> is_digit(#[trigger] text[i])
}

/// The number that a run of decimal digits stands for.
pub open spec fn decimal_value(digits: Seq<char>) -> int
    decreases digits.len(),
{
    if digits.len() == 0 {
        0
    } else {
        decimal_value(digits.drop_last()) * 10 + (digits.last() as int - '0' as int)
    }
}

/// What is left of `text` without the plus sign that may stand first.
pub open spec fn unsigned_digits(text: Seq<char>) -> Seq<char> {
    if text.len() > 0 && text[0] == '+' {
        text.drop_first()
    } else {
        text
    }
}

/// The number that `text` stands for: `text` is one or more decimal digits,
/// with nothing between or after them and at most one plus sign before
/// them, and their value fits.
pub open spec fn spec_parse_u16(text: Seq<char>) -> Option<u16> {
    let digits = unsigned_digits(text);
    if digits.len() > 0 && all_digits(digits) && decimal_value(digits) <= u16::MAX {
        Some(decimal_value(digits) as u16)
    } else {
        None
    }
}

/// A run of digits stands for no less than any of its beginnings, and for
/// nothing below zero.
pub proof fn lemma_decimal_value_grows(digits: Seq<char>, n: int)
    requires
        all_digits(digits),
        0 <= n <= digits.len(),
    ensures
        0 <= decimal_value(digits.take(n)) <= decimal_value(digits),
    decreases digits.len() - n,
{
    lemma_decimal_value_not_negative(digits.take(n));
    if n < digits.len() {
        let longer = digits.take(n + 1);
        assert(longer.drop_last() =~= digits.take(n));
        assert(longer.last() == digits[n]);
        assert(is_digit(digits[n]));
        lemma_decimal_value_grows(digits, n + 1);
    } else {
        assert(digits.take(n) =~= digits);
    }
}

/// A run of digits stands for nothing below zero.
pub proof fn lemma_decimal_value_not_negative(digits: Seq<char>)
    requires
        all_digits(digits),
    ensures
        0 <= decimal_value(digits),
    decreases digits.len(),
{
    if digits.len() > 0 {
        assert(is_digit(digits.last()));
        lemma_decimal_value_not_negative(digits.drop_last());
    }
}

/// Reads a number below 65536 from its decimal digits.
pub fn parse_u16(text: &str) -> (parsed: Option<u16>)
    ensures
        parsed == spec_parse_u16(text@),
{
    let len = text.unicode_len();
    if len == 0 {
        return None;
    }
    let start: usize = if text.get_char(0) == '+' {
        1
    } else {
        0
    };
    let ghost digits = unsigned_digits(text@);
    assert(digits =~= text@.skip(start as int));
    if start == len {
        return None;
    }
    let mut value: u32 = 0;
    let mut i: usize = start;
    while i < len
        invariant
            len == text@.len(),
            digits == unsigned_digits(text@),
            digits.len() == len - start,
            forall|k: int| 0 <= k < digits.len() ==> digits[k] == text@[k + start],
            start <= i <= len,
            all_digits(digits.take(i - start)),
            value == decimal_value(digits.take(i - start)),
            value <= u16::MAX,
        decreases len - i,
    {
        let c = text.get_char(i);
        assert(c == digits[i - start]);
        if c < '0' || c > '9' {
            return None;
        }
        let digit: u32 = c as u32 - '0' as u32;
        proof {
            let longer = digits.take(i + 1 - start);
            assert(longer.drop_last() =~= digits.take(i - start));
            assert(longer.last() == c);
            assert forall|k: int| 0 <= k < longer.len() implies is_digit(#[trigger] longer[k]) by {
                if k < i - start {
                    assert(longer[k] == digits.take(i - start)[k]);
                }
            }
        }
        value = value * 10 + digit;
        i += 1;
        if value > 65535 {
            proof {
                if all_digits(digits) {
                    lemma_decimal_value_grows(digits, i - start);
                }
            }
            return None;
        }
    }
    assert(digits.take(len - start) =~= digits);
    Some(value as u16)
}

/// The text of a parameter that was supplied, or nothing.
pub open spec fn text_of(value: Option<String>) -> Option<Seq<char>> {
    match value {
        Some(text) => Some(text@),
        None => None,
    }
}

/// The number that a supplied parameter stands for, if it was supplied and
/// can be read.
pub open spec fn number_of(value: Option<String>) -> Option<u16> {
    match value {
        Some(text) => spec_parse_u16(text@),
        None => None,
    }
}

/// The required parameter that is missing first, in the order host, port,
/// user, password. A port that cannot be read counts as missing.
pub open spec fn first_missing(source: EndpointSource) -> Option<Parameter> {
    if source.host is None {
        Some(Parameter::Host)
    } else if number_of(source.port) is None {
        Some(Parameter::Port)
    } else if source.user is None {
        Some(Parameter::User)
    } else if source.password is None {
        Some(Parameter::Password)
    } else {
        None
    }
}

/// What resolving answers. A required parameter that is missing is named
/// and nothing is put in its place. The replicas' host falls back to the
/// host, and a pool size that is not supplied, or cannot be read, to the
/// given default: neither is a secret.
pub open spec fn resolve_result(
    source: EndpointSource,
    default_pool_size: u16,
    result: Result<EndpointParams, EndpointError>,
) -> bool {
    match first_missing(source) {
        Some(parameter) => result == Err::<EndpointParams, EndpointError>(
            EndpointError::MissingParameter(parameter),
        ),
        None => {
            &&& result is Ok
            &&& Some(result->Ok_0.host@) == text_of(source.host)
            &&& Some(result->Ok_0.read_host@) == if source.read_replicas is Some {
                text_of(source.read_replicas)
            } else {
                text_of(source.host)
            }
            &&& Some(result->Ok_0.port) == number_of(source.port)
            &&& Some(result->Ok_0.user@) == text_of(source.user)
            &&& Some(result->Ok_0.password@) == text_of(source.password)
            &&& result->Ok_0.pool_size == if number_of(source.pool_size) is Some {
                number_of(source.pool_size)->Some_0
            } else {
                default_pool_size
            }
        },
    }
}

/// The number that a supplied parameter stands for.
pub fn read_number(value: &Option<String>) -> (number: Option<u16>)
    ensures
        number == number_of(*value),
{
    match value {
        Some(text) => parse_u16(text.as_str()),
        None => None,
    }
}

/// Takes the connection parameters from what the deployment supplies.
pub fn resolve(source: EndpointSource, default_pool_size: u16) -> (result: Result<
    EndpointParams,
    EndpointError,
>)
    ensures
        resolve_result(source, default_pool_size, result),
{
    let port = read_number(&source.port);
    let pool_size = read_number(&source.pool_size);
    let host = match source.host {
        Some(host) => host,
        None => {
            return Err(EndpointError::MissingParameter(Parameter::Host));
        },
    };
    let port = match port {
        Some(port) => port,
        None => {
            return Err(EndpointError::MissingParameter(Parameter::Port));
        },
    };
    let user = match source.user {
        Some(user) => user,
        None => {
            return Err(EndpointError::MissingParameter(Parameter::User));
        },
    };
    let password = match source.password {
        Some(password) => password,
        None => {
            return Err(EndpointError::MissingParameter(Parameter::Password));
        },
    };
    let read_host = match source.read_replicas {
        Some(read_host) => read_host,
        None => host.clone(),
    };
    let pool_size = match pool_size {
        Some(pool_size) => pool_size,
        None => default_pool_size,
    };
    Ok(EndpointParams { host, read_host, port, user, password, pool_size })
}

} // verus!
