//! Web addresses.
use url::Url;
use vstd::prelude::*;

use crate::address::Ipv4Address;
use crate::text::decimal;

verus! {

/// A web address that could be read.
#[derive(Debug)]
pub struct ParsedUrl {
    /// The address in its normal form.
    pub text: String,
    /// The host in it, where it names one.
    pub host: Option<String>,
}

/// A string that may be missing, as a plain value.
pub open spec fn optional_text(text: Option<String>) -> Option<Seq<char>> {
    match text {
        Some(text) => Some(text@),
        None => None,
    }
}

/// A web address that may be unreadable, as its normal form and its host.
pub open spec fn parsed_view(parsed: Option<ParsedUrl>) -> Option<(Seq<char>, Option<Seq<char>>)> {
    match parsed {
        Some(url) => Some((url.text@, optional_text(url.host))),
        None => None,
    }
}

/// What a text is as a web address: its normal form and the host in it.
pub uninterp spec fn url_parts(text: Seq<char>) -> Option<(Seq<char>, Option<Seq<char>>)>;

/// `Url::parse` of the url crate, with the address taken by its serialization
/// and its host. The result is a function of the text alone, and is nothing
/// where the text is no absolute web address.
#[verifier::external_body]
pub(crate) fn parse_url(text: &str) -> (r: Option<ParsedUrl>)
    ensures
        parsed_view(r) == url_parts(text@),
{
    match Url::parse(text) {
        Ok(url) => Some(
            ParsedUrl { text: url.to_string(), host: url.host_str().map(|host| host.to_string()) },
        ),
        Err(_) => None,
    }
}

/// The host that a web address names, or an empty text.
pub open spec fn host_text(parts: Option<(Seq<char>, Option<Seq<char>>)>) -> Seq<char> {
    match parts {
        Some((_, Some(host))) => host,
        _ => Seq::empty(),
    }
}

/// The host of a web address that was read, or an empty text.
pub fn host_or_empty(parsed: Option<ParsedUrl>) -> (r: String)
    ensures
        r@ == host_text(parsed_view(parsed)),
{
    match parsed {
        Some(url) => match url.host {
            Some(host) => host,
            None => String::new(),
        },
        None => String::new(),
    }
}

/// The host that a web address names, or an empty text.
pub fn host_from_url(url: &str) -> (r: String)
    ensures
        r@ == host_text(url_parts(url@)),
{
    host_or_empty(parse_url(url))
}

/// The web address of the streamer at an address and port.
pub open spec fn streamer_url_text(address: Ipv4Address, port: u16) -> Seq<char> {
    "ws://"@ + crate::address::ipv4_text(address) + ":"@ + crate::text::decimal_text(port as nat)
}

/// The web address of the streamer at an address and port.
pub fn streamer_url(address: Ipv4Address, port: u16) -> (r: String)
    ensures
        r@ == streamer_url_text(address, port),
{
    let mut text: String = "ws://".to_owned();
    text.append(address.to_text().as_str());
    text.append(":");
    text.append(decimal(port as u64).as_str());
    text
}

/// The host of a web address is the one that it names. Where it names none, or
/// the text is no web address, the host is empty.
pub proof fn law_host(text: Seq<char>, host: Seq<char>)
    ensures
        host_text(Some((text, Some(host)))) == host,
        host_text(Some((text, None))).len() == 0,
        host_text(None).len() == 0,
{
}

/// The web address of a streamer is its scheme, its address in dot-decimal
/// notation, a colon and its port.
pub proof fn law_streamer_url(address: Ipv4Address, port: u16)
    ensures
        streamer_url_text(address, port) == crate::text::joined(
            seq!["ws"@, "//"@ + crate::address::ipv4_text(address), crate::text::decimal_text(port as nat)],
            seq![':'],
        ),
{
    reveal_strlit("ws");
    reveal_strlit("//");
    reveal_strlit("ws://");
    reveal_strlit(":");
    let colon = seq![':'];
    let ip = crate::address::ipv4_text(address);
    let number = crate::text::decimal_text(port as nat);
    crate::text::law_joined(seq![], "ws"@, colon);
    crate::text::law_joined(seq!["ws"@], "//"@ + ip, colon);
    crate::text::law_joined(seq!["ws"@, "//"@ + ip], number, colon);
    assert(seq!["ws"@].push("//"@ + ip) =~= seq!["ws"@, "//"@ + ip]);
    assert(seq!["ws"@, "//"@ + ip].push(number) =~= seq!["ws"@, "//"@ + ip, number]);
    assert(streamer_url_text(address, port) =~= "ws"@ + colon + ("//"@ + ip) + colon + number);
}

/// A web address that was read is taken by its normal form and its host.
pub proof fn law_parsed_url(url: ParsedUrl, text: String)
    ensures
        parsed_view(None) is None,
        parsed_view(Some(url)) matches Some((normal, host)) && normal == url.text@ && match url.host {
            Some(name) => host == Some(name@),
            None => host is None,
        },
        optional_text(Some(text)) == Some(text@),
        optional_text(None) is None,
{
}

} // verus!
