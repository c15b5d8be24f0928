//! The server configuration, loaded once at startup.
//!
//! The settings arrive as optionally-present text (from environment
//! variables or a configuration file; which, is an external convention):
//! a bind address, `host:port`, and a static-site root. Loading fails
//! fast — before any socket exists — when a required setting is absent
//! or the bind address does not parse, and each error names exactly the
//! setting at fault.

use vstd::prelude::*;

verus! {

/// A decimal digit.
pub open spec fn is_digit(c: char) -> bool {
    48 <= c as u32 <= 57
}

pub open spec fn digit_val(c: char) -> int {
    c as u32 - 48
}

pub open spec fn all_digits(s: Seq<char>) -> bool {
    forall|i: int| 0 <= i < s.len() ==> is_digit(#[trigger] s[i])
}

/// The value of a decimal numeral, most significant digit first.
pub open spec fn dec_val(s: Seq<char>) -> int
    decreases s.len(),
{
    if s.len() == 0 {
        0
    } else {
        dec_val(s.drop_last()) * 10 + digit_val(s.last())
    }
}

pub open spec fn pow10(n: nat) -> int
    decreases n,
{
    if n == 0 {
        1
    } else {
        10 * pow10((n - 1) as nat)
    }
}

/// Valid port text: one to five digits, value at most 65535.
pub open spec fn is_valid_port_text(s: Seq<char>) -> bool {
    1 <= s.len() <= 5 && all_digits(s) && dec_val(s) <= 65535
}

/// Parse a port numeral. Returns the value exactly when the text is one
/// to five digits naming a number up to 65535; rejects everything else.
pub fn parse_port(s: &str) -> (r: Option<u16>)
    ensures
        r is Some <==> is_valid_port_text(s@),
        r matches Option::Some(p) ==> p as int == dec_val(s@),
{
    let len: usize = s.unicode_len();
    if len == 0 || len > 5 {
        return Option::None;
    }
    let mut acc: u32 = 0;
    let mut i: usize = 0;
    proof {
        assert(s@.subrange(0, 0) =~= Seq::<char>::empty());
    }
    while i < len
        invariant
            len == s@.len(),
            1 <= len <= 5,
            i <= len,
            all_digits(s@.subrange(0, i as int)),
            acc as int == dec_val(s@.subrange(0, i as int)),
            (acc as int) < pow10(i as nat),
        decreases len - i,
    {
        let ghost prefix = s@.subrange(0, i as int);
        let ghost longer = s@.subrange(0, i + 1);
        let c = s.get_char(i);
        let d: u32 = c as u32;
        if d < 48 || d > 57 {
            proof {
                assert(!is_digit(s@[i as int]));
            }
            return Option::None;
        }
        proof {
            assert(longer.drop_last() =~= prefix);
            assert(longer.last() == s@[i as int]);
            assert(all_digits(longer));
            assert(pow10((i + 1) as nat) == 10 * pow10(i as nat));
            assert(pow10(0nat) == 1);
            assert(pow10(1nat) == 10);
            assert(pow10(2nat) == 100);
            assert(pow10(3nat) == 1000);
            assert(pow10(4nat) == 10000);
            if i == 0 {
                assert((acc as int) < 1);
            } else if i == 1 {
                assert((acc as int) < 10);
            } else if i == 2 {
                assert((acc as int) < 100);
            } else if i == 3 {
                assert((acc as int) < 1000);
            } else {
                assert(i == 4);
                assert((acc as int) < 10000);
            }
        }
        acc = acc * 10 + (d - 48);
        i = i + 1;
    }
    proof {
        assert(s@.subrange(0, len as int) =~= s@);
    }
    if acc > 65535 {
        return Option::None;
    }
    Option::Some(acc as u16)
}

/// Index of the first colon, or the length when there is none.
pub open spec fn first_colon(s: Seq<char>) -> int
    decreases s.len(),
{
    if s.len() == 0 {
        0
    } else if s[0] == ':' {
        0
    } else {
        1 + first_colon(s.drop_first())
    }
}

proof fn lemma_first_colon_at(s: Seq<char>, i: int)
    requires
        0 <= i < s.len(),
        s[i] == ':',
        forall|j: int| 0 <= j < i ==> s[j] != ':',
    ensures
        first_colon(s) == i,
    decreases i,
{
    if i > 0 {
        assert(s.drop_first()[i - 1] == ':');
        assert(forall|j: int| 0 <= j < i - 1 ==> s.drop_first()[j] != ':');
        lemma_first_colon_at(s.drop_first(), i - 1);
    }
}

proof fn lemma_first_colon_none(s: Seq<char>)
    requires
        forall|j: int| 0 <= j < s.len() ==> s[j] != ':',
    ensures
        first_colon(s) == s.len(),
    decreases s.len(),
{
    if s.len() > 0 {
        assert(forall|j: int| 0 <= j < s.drop_first().len() ==> s.drop_first()[j] != ':');
        lemma_first_colon_none(s.drop_first());
    }
}

/// A valid bind address: a nonempty host before the first colon, and
/// valid port text after it.
pub open spec fn is_valid_addr(s: Seq<char>) -> bool {
    0 < first_colon(s) && first_colon(s) < s.len() && is_valid_port_text(
        s.subrange(first_colon(s) + 1, s.len() as int),
    )
}

pub open spec fn addr_host(s: Seq<char>) -> Seq<char> {
    s.subrange(0, first_colon(s))
}

pub open spec fn addr_port(s: Seq<char>) -> int {
    dec_val(s.subrange(first_colon(s) + 1, s.len() as int))
}

/// Split a bind address into host and port. Returns them exactly when the
/// address is valid per `is_valid_addr`; rejects everything else.
pub fn split_addr(s: &str) -> (r: Option<(String, u16)>)
    ensures
        r is Some <==> is_valid_addr(s@),
        r matches Option::Some(hp) ==> hp.0@ == addr_host(s@) && hp.1 as int == addr_port(s@),
{
    let len: usize = s.unicode_len();
    let mut i: usize = 0;
    while i < len
        invariant
            len == s@.len(),
            i <= len,
            forall|j: int| 0 <= j < i ==> s@[j] != ':',
        decreases len - i,
    {
        let c = s.get_char(i);
        if c == ':' {
            proof {
                lemma_first_colon_at(s@, i as int);
            }
            if i == 0 {
                return Option::None;
            }
            let host = s.substring_char(0, i);
            let port_text = s.substring_char(i + 1, len);
            match parse_port(port_text) {
                Option::Some(p) => {
                    return Option::Some((String::from_str(host), p));
                },
                Option::None => {
                    return Option::None;
                },
            }
        }
        i = i + 1;
    }
    proof {
        lemma_first_colon_none(s@);
    }
    Option::None
}

/// The server's configuration: read once at startup, immutable afterward.
#[derive(Debug)]
pub struct ServerConfig {
    pub host: String,
    pub port: u16,
    pub site_root: String,
}

/// Why startup must fail: each variant names the setting at fault.
#[derive(Clone, Copy, PartialEq, Eq, Structural, Debug)]
pub enum ConfigError {
    MissingSiteAddr,
    InvalidSiteAddr,
    MissingSiteRoot,
}

/// Load the configuration from optionally-present settings. Fails fast —
/// with the address checked first — when the bind address is absent or
/// invalid or the site root is absent; succeeds otherwise, with exactly
/// the host, port and root the settings named.
pub fn load_config(site_addr: Option<String>, site_root: Option<String>) -> (r: Result<
    ServerConfig,
    ConfigError,
>)
    ensures
        site_addr is None ==> r == Result::<ServerConfig, ConfigError>::Err(
            ConfigError::MissingSiteAddr,
        ),
        site_addr matches Option::Some(a) ==> (!is_valid_addr(a@) ==> r == Result::<
            ServerConfig,
            ConfigError,
        >::Err(ConfigError::InvalidSiteAddr)),
        site_addr matches Option::Some(a) ==> (is_valid_addr(a@) && site_root is None ==> r
            == Result::<ServerConfig, ConfigError>::Err(ConfigError::MissingSiteRoot)),
        site_addr matches Option::Some(a) ==> (is_valid_addr(a@) ==> (site_root
            matches Option::Some(root) ==> (r matches Result::Ok(c) && c.host@ == addr_host(a@)
            && (c.port as int) == addr_port(a@) && c.site_root == root))),
        r is Ok <==> (site_addr matches Option::Some(a) && is_valid_addr(a@)
            && site_root is Some),
{
    match site_addr {
        Option::None => Result::Err(ConfigError::MissingSiteAddr),
        Option::Some(a) => match split_addr(a.as_str()) {
            Option::None => Result::Err(ConfigError::InvalidSiteAddr),
            Option::Some((host, port)) => match site_root {
                Option::None => Result::Err(ConfigError::MissingSiteRoot),
                Option::Some(root) => Result::Ok(
                    ServerConfig { host, port, site_root: root },
                ),
            },
        },
    }
}

} // verus!
