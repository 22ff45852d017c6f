//! The addresses under which the database is reached.
use vstd::prelude::*;

use crate::clickhouse::sharding;
use crate::text;
use crate::text_search;

verus! {

/// What `reqwest::Url::parse` makes of a text and `Url::port` then reads from it: nothing where the
/// text is no URL, and else the port where one is written that is not the default of the scheme.
pub uninterp spec fn url_port(url: Seq<char>) -> Option<Option<u16>>;

/// Whether `reqwest::Url::parse` accepts a text and `Url::set_host` then accepts a host.
pub uninterp spec fn url_accepts_host(url: Seq<char>, host: Seq<char>) -> bool;

/// The text of a URL after `reqwest::Url::parse`, `Url::set_host` and `Url::set_port`, where all
/// three accept what they are given.
pub uninterp spec fn url_with_authority(
    url: Seq<char>,
    host: Seq<char>,
    port: u16,
) -> Option<Seq<char>>;

/// Whether `clickhouse_rs::Options` can be read from a text.
pub uninterp spec fn tcp_options_valid(address: Seq<char>) -> bool;

/// `reqwest::Url::parse` and `Url::port`: the result depends on the text alone.
#[verifier::external_body]
pub(crate) fn parsed_url_port(url: &str) -> (r: Option<Option<u16>>)
    ensures
        r == url_port(url@),
{
    match reqwest::Url::parse(url) {
        Ok(parsed) => Some(parsed.port()),
        Err(_) => None,
    }
}

/// `reqwest::Url::parse` and `Url::set_host`: the result depends on the two texts alone.
#[verifier::external_body]
pub(crate) fn parsed_url_accepts_host(url: &str, host: &str) -> (r: bool)
    ensures
        r == url_accepts_host(url@, host@),
{
    match reqwest::Url::parse(url) {
        Ok(mut parsed) => parsed.set_host(Some(host)).is_ok(),
        Err(_) => false,
    }
}

/// `reqwest::Url::parse`, `Url::set_host` and `Url::set_port`: the result depends on the arguments
/// alone.
#[verifier::external_body]
pub(crate) fn parsed_url_with_authority(url: &str, host: &str, port: u16) -> (r: Option<String>)
    ensures
        sharding::opt_text(r) == url_with_authority(url@, host@, port),
{
    let mut parsed = reqwest::Url::parse(url).ok()?;
    parsed.set_host(Some(host)).ok()?;
    parsed.set_port(Some(port)).ok()?;
    Some(parsed.as_str().to_string())
}

/// `clickhouse_rs::Options::from_str`: whether it succeeds depends on the text alone.
#[verifier::external_body]
pub(crate) fn tcp_options_parse(address: &str) -> (r: bool)
    ensures
        r == tcp_options_valid(address@),
{
    <clickhouse_rs::Options as std::str::FromStr>::from_str(address).is_ok()
}

/// The address of a node for native connections. An address with colons stands in square brackets.
pub open spec fn tcp_address_of(host: Seq<char>, port: u16) -> Seq<char> {
    if host.contains(':') && !text_search::starts_with(host, "["@) {
        "tcp://["@ + host + "]:"@ + text::dec(port as nat)
    } else {
        "tcp://"@ + host + ":"@ + text::dec(port as nat)
    }
}

/// Builds the address of a node for native connections.
pub fn tcp_address(host: &str, port: u16) -> (r: String)
    ensures
        r@ == tcp_address_of(host@, port),
{
    let colon = text_search::contains_char(host, ':');
    let bracketed = text_search::starts_with_text(host, "[");
    let mut r = "tcp://".to_owned();
    if colon && !bracketed {
        proof {
            reveal_strlit("tcp://");
            reveal_strlit("tcp://[");
            reveal_strlit("]:");
            reveal_strlit("[");
            reveal_strlit("]");
            reveal_strlit(":");
        }
        r.append("[");
        assert(r@ =~= "tcp://["@);
        r.append(host);
        r.append("]:");
    } else {
        r.append(host);
        r.append(":");
    }
    r.append(text::dec_string(port as u64).as_str());
    r
}

/// How many native connections a node is held open: at least one at most, and no more at least
/// than at most.
#[derive(Clone, Copy, Debug, PartialEq, Eq, Structural)]
pub struct TcpPoolSizing {
    pub min: usize,
    pub max: usize,
}

impl TcpPoolSizing {
    /// The sizing within its bounds.
    pub fn bounded(self) -> (r: TcpPoolSizing)
        ensures
            r.max == (if self.max == 0 {
                1
            } else {
                self.max
            }),
            r.min == (if self.min < r.max {
                self.min
            } else {
                r.max
            }),
    {
        let max: usize = if self.max == 0 {
            1
        } else {
            self.max
        };
        let min: usize = if self.min < max {
            self.min
        } else {
            max
        };
        TcpPoolSizing { min, max }
    }
}

/// An address with colons stands in square brackets, once, so that the port behind it is told apart.
pub proof fn law_address_with_colons_stands_in_brackets(host: Seq<char>, port: u16)
    requires
        host.len() > 0,
        host[0] != '[',
    ensures
        host.contains(':') ==> tcp_address_of(host, port) == "tcp://["@ + host + "]:"@ + text::dec(
            port as nat,
        ),
        !host.contains(':') ==> tcp_address_of(host, port) == "tcp://"@ + host + ":"@ + text::dec(
            port as nat,
        ),
        tcp_address_of("["@ + host + "]"@, port) == "tcp://["@ + host + "]:"@ + text::dec(port as nat),
{
    reveal_strlit("[");
    reveal_strlit("]");
    reveal_strlit("tcp://[");
    reveal_strlit("tcp://");
    reveal_strlit("]:");
    reveal_strlit(":");
    if text_search::starts_with(host, "["@) {
        assert(host.subrange(0, 1)[0] == host[0]);
    }
    let wrapped = "["@ + host + "]"@;
    text_search::law_parts_of_a_text_are_found("["@, host + "]"@, wrapped);
    assert(wrapped =~= "["@ + (host + "]"@));
    assert(tcp_address_of(wrapped, port) =~= "tcp://["@ + host + "]:"@ + text::dec(port as nat));
}

} // verus!
