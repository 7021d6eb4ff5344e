//! The address that the server listens on.

use vstd::prelude::*;
use vstd::string::StringExecFns;
use crate::text::push_char;

verus! {

/// The port that the URL `text` names explicitly: what `Url::port` answers on
/// the URL that `Url::parse` reads from `text`. `None` when `text` is no URL
/// or the URL names no port.
pub uninterp spec fn url_port(text: Seq<char>) -> Option<u16>;

/// Calls `url::Url::parse` and, on the URL it gives, `url::Url::port`.
/// Trusted: the answer depends on the characters of `text` alone; the
/// contracts of this crate call it [`url_port`]. Text that does not parse has
/// no port.
#[verifier::external_body]
fn explicit_port(text: &str) -> (port: Option<u16>)
    ensures
        port == url_port(text@),
{
    match url::Url::parse(text) {
        Ok(url) => url.port(),
        Err(_) => None,
    }
}

/// The character of the decimal digit `digit`.
pub open spec fn digit_char(digit: nat) -> char {
    if digit == 0 {
        '0'
    } else if digit == 1 {
        '1'
    } else if digit == 2 {
        '2'
    } else if digit == 3 {
        '3'
    } else if digit == 4 {
        '4'
    } else if digit == 5 {
        '5'
    } else if digit == 6 {
        '6'
    } else if digit == 7 {
        '7'
    } else if digit == 8 {
        '8'
    } else {
        '9'
    }
}

/// The decimal digits of `n`, without leading zeros.
pub open spec fn decimal(n: nat) -> Seq<char>
    decreases n,
{
    if n < 10 {
        seq![digit_char(n)]
    } else {
        decimal(n / 10).push(digit_char(n % 10))
    }
}

/// The address to listen on: the loopback interface on `port` when there is
/// one, else every interface on the default port.
pub open spec fn host_on(port: Option<u16>) -> Seq<char> {
    match port {
        Some(port) => "127.0.0.1:"@ + decimal(port as nat),
        None => "0.0.0.0:7321"@,
    }
}

/// The address to listen on, given the override that the environment holds,
/// if it holds one. Only the port of the override counts.
pub open spec fn host_of(override_url: Option<Seq<char>>) -> Seq<char> {
    match override_url {
        Some(text) => host_on(url_port(text)),
        None => host_on(None),
    }
}

/// The character of a decimal digit.
fn digit_of(digit: u16) -> (c: char)
    requires
        digit < 10,
    ensures
        c == digit_char(digit as nat),
{
    if digit == 0 {
        '0'
    } else if digit == 1 {
        '1'
    } else if digit == 2 {
        '2'
    } else if digit == 3 {
        '3'
    } else if digit == 4 {
        '4'
    } else if digit == 5 {
        '5'
    } else if digit == 6 {
        '6'
    } else if digit == 7 {
        '7'
    } else if digit == 8 {
        '8'
    } else {
        '9'
    }
}

/// Appends the decimal digits of `n` to `text`.
fn push_decimal(text: &mut String, n: u16)
    ensures
        final(text)@ == old(text)@ + decimal(n as nat),
    decreases n,
{
    if n >= 10 {
        push_decimal(text, n / 10);
    }
    push_char(text, digit_of(n % 10));
    proof {
        if n >= 10 {
            assert(text@ =~= old(text)@ + decimal((n / 10) as nat).push(
                digit_char((n % 10) as nat),
            ));
        } else {
            assert(text@ =~= old(text)@ + seq![digit_char(n as nat)]);
        }
    }
}

/// The address to listen on for an explicit port, or without one.
pub fn host_with_port(port: Option<u16>) -> (host: String)
    ensures
        host@ == host_on(port),
{
    match port {
        Some(port) => {
            let mut host = String::from_str("127.0.0.1:");
            push_decimal(&mut host, port);
            host
        },
        None => String::from_str("0.0.0.0:7321"),
    }
}

/// The address to listen on. `override_url` is what the environment holds as
/// an override, if anything: a URL, of which only the port counts. Without an
/// override, or when the override is no URL or names no port, the server
/// listens on every interface on the default port.
pub fn get_host(override_url: Option<&str>) -> (host: String)
    ensures
        host@ == host_of(
            match override_url {
                Some(text) => Some(text@),
                None => None,
            },
        ),
{
    match override_url {
        Some(text) => host_with_port(explicit_port(text)),
        None => host_with_port(None),
    }
}

} // verus!
