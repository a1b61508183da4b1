//! Reading the credential record out of the text of a mutt-style
//! configuration file.
use crate::subject::{extract_info, extracted, ExtractError};
use crate::Creds;
use vstd::prelude::*;
use vstd::string::StrSliceExecFns;

verus! {

pub const USER_PATTERN: &'static str = "set imap_user=(\\w*)";

pub const PASS_PATTERN: &'static str = "set imap_pass=(\\w*)";

pub const HOST_PATTERN: &'static str = "set folder=imaps?://(.+):\\d+";

pub const PORT_PATTERN: &'static str = "set folder=imaps?://.+:(\\d+)";

/// Why no credential record could be read.
#[derive(Debug, Clone, Copy, PartialEq, Eq, Structural)]
pub enum ConfigError {
    User(ExtractError),
    Pass(ExtractError),
    Host(ExtractError),
    Port(ExtractError),
    /// The port is not a decimal number below 65536.
    BadPort,
}

pub open spec fn is_digit(c: char) -> bool {
    '0' as u32 <= c as u32 <= '9' as u32
}

/// The number written by a string of decimal digits.
pub open spec fn digits_value(s: Seq<char>) -> nat
    decreases s.len(),
{
    if s.len() == 0 {
        0
    } else {
        digits_value(s.drop_last()) * 10 + (s.last() as u32 - '0' as u32) as nat
    }
}

/// The port a string names: one or more decimal digits, at most 65535.
pub open spec fn port_of(s: Seq<char>) -> Option<u16> {
    if s.len() > 0 && (forall|i: int| 0 <= i < s.len() ==> is_digit(#[trigger] s[i])) && digits_value(s)
        <= 65535 {
        Some(digits_value(s) as u16)
    } else {
        None
    }
}

proof fn lemma_digits_grow(s: Seq<char>, k: int)
    requires
        0 <= k <= s.len(),
        forall|i: int| 0 <= i < s.len() ==> is_digit(#[trigger] s[i]),
    ensures
        digits_value(s.take(k)) <= digits_value(s),
    decreases s.len(),
{
    if k < s.len() {
        assert(s.drop_last().take(k) =~= s.take(k));
        assert forall|i: int| 0 <= i < s.drop_last().len() implies is_digit(#[trigger] s.drop_last()[i]) by {
            assert(s.drop_last()[i] == s[i]);
        }
        lemma_digits_grow(s.drop_last(), k);
    } else {
        assert(s.take(k) =~= s);
    }
}

/// Reads a port number.
pub fn parse_port(s: &str) -> (r: Option<u16>)
    ensures
        r == port_of(s@),
{
    let n = s.unicode_len();
    if n == 0 {
        return None;
    }
    let mut v: u32 = 0;
    let mut i: usize = 0;
    assert(s@.take(0) =~= Seq::<char>::empty());
    while i < n
        invariant
            n == s@.len(),
            i <= n,
            v <= 65535,
            v == digits_value(s@.take(i as int)),
            forall|j: int| 0 <= j < i ==> is_digit(#[trigger] s@[j]),
        decreases n - i,
    {
        let c = s.get_char(i);
        if !('0' as u32 <= c as u32 && c as u32 <= '9' as u32) {
            return None;
        }
        let d = c as u32 - '0' as u32;
        assert(s@.take(i + 1).drop_last() =~= s@.take(i as int));
        let w = v * 10 + d;
        if w > 65535 {
            proof {
                if forall|j: int| 0 <= j < s@.len() ==> is_digit(#[trigger] s@[j]) {
                    lemma_digits_grow(s@, i + 1);
                }
            }
            return None;
        }
        v = w;
        i = i + 1;
    }
    assert(s@.take(n as int) =~= s@);
    Some(v as u16)
}

/// A credential record as plain values: user, password, host and port.
pub open spec fn creds_view(c: Creds) -> (Seq<char>, Seq<char>, Seq<char>, u16) {
    (c.user@, c.pass@, c.host@, c.port)
}

/// The credential record that a configuration text holds, or the first
/// field that cannot be read from it.
pub open spec fn credentials_of(content: Seq<char>) -> Result<(Seq<char>, Seq<char>, Seq<char>, u16), ConfigError> {
    match (
        extracted(USER_PATTERN@, content),
        extracted(PASS_PATTERN@, content),
        extracted(HOST_PATTERN@, content),
        extracted(PORT_PATTERN@, content),
    ) {
        (Err(e), _, _, _) => Err(ConfigError::User(e)),
        (Ok(_), Err(e), _, _) => Err(ConfigError::Pass(e)),
        (Ok(_), Ok(_), Err(e), _) => Err(ConfigError::Host(e)),
        (Ok(_), Ok(_), Ok(_), Err(e)) => Err(ConfigError::Port(e)),
        (Ok(user), Ok(pass), Ok(host), Ok(port)) => match port_of(port) {
            Some(p) => Ok((user, pass, host, p)),
            None => Err(ConfigError::BadPort),
        },
    }
}

pub open spec fn parsed_view(r: Result<Creds, ConfigError>) -> Result<(Seq<char>, Seq<char>, Seq<char>, u16), ConfigError> {
    match r {
        Ok(c) => Ok(creds_view(c)),
        Err(e) => Err(e),
    }
}

/// Reads the credential record out of a configuration text.
pub fn parse_credentials(content: &str) -> (r: Result<Creds, ConfigError>)
    ensures
        parsed_view(r) == credentials_of(content@),
{
    let user = match extract_info(USER_PATTERN, content) {
        Ok(u) => u,
        Err(e) => return Err(ConfigError::User(e)),
    };
    let pass = match extract_info(PASS_PATTERN, content) {
        Ok(p) => p,
        Err(e) => return Err(ConfigError::Pass(e)),
    };
    let host = match extract_info(HOST_PATTERN, content) {
        Ok(h) => h,
        Err(e) => return Err(ConfigError::Host(e)),
    };
    let port = match extract_info(PORT_PATTERN, content) {
        Ok(p) => p,
        Err(e) => return Err(ConfigError::Port(e)),
    };
    match parse_port(port.as_str()) {
        Some(p) => Ok(Creds { user, pass, host, port: p }),
        None => Err(ConfigError::BadPort),
    }
}

} // verus!
