//! Absolute URLs, taken apart into the pieces that a request is made of.

use crate::decimal::{decimal_text, render_text};
use vstd::prelude::*;
use vstd::string::*;

verus! {

/// The pieces of an absolute URL as contracts see them.
pub struct UrlView {
    pub scheme: Seq<char>,
    pub host: Option<Seq<char>>,
    pub port: Option<u16>,
    pub path: Seq<char>,
    pub query: Option<Seq<char>>,
}

/// The pieces of an absolute URL.
#[derive(Debug, PartialEq, Eq)]
pub struct Url {
    /// The scheme, without the colon that follows it.
    pub scheme: String,
    /// The host, where the URL has one; an IPv6 address stands in brackets.
    pub host: Option<String>,
    /// The port, where the URL names one that is not its scheme's own.
    pub port: Option<u16>,
    /// The path, percent-encoded.
    pub path: String,
    /// What follows the question mark, where there is one.
    pub query: Option<String>,
}

impl View for Url {
    type V = UrlView;

    open spec fn view(&self) -> UrlView {
        UrlView {
            scheme: self.scheme@,
            host: match self.host {
                Some(h) => Some(h@),
                None => None,
            },
            port: self.port,
            path: self.path@,
            query: match self.query {
                Some(q) => Some(q@),
                None => None,
            },
        }
    }
}

/// What the URL parser makes of `text`: the pieces of the URL, or nothing
/// where `text` is no absolute URL.
pub uninterp spec fn url_parse(text: Seq<char>) -> Option<UrlView>;

/// The authority of a URL: its host, followed by `:` and the port in
/// decimal where it names one. Neither user nor password is part of it. A
/// URL without a host has the empty authority.
pub open spec fn authority_of(url: UrlView) -> Seq<char> {
    match url.host {
        Some(host) => match url.port {
            Some(port) => host + ":"@ + decimal_text(port as nat),
            None => host,
        },
        None => Seq::empty(),
    }
}

/// `url::Url::parse`, with the parsed URL taken apart by its `scheme`,
/// `host_str`, `port`, `path` and `query`. The contract claims only that the
/// result is a function of the text.
#[verifier::external_body]
fn parse_absolute(text: &str) -> (r: Option<Url>)
    ensures
        r is Some <==> url_parse(text@) is Some,
        r is Some ==> r->Some_0@ == url_parse(text@)->Some_0,
{
    match ::url::Url::parse(text) {
        Ok(u) => Some(
            Url {
                scheme: u.scheme().to_owned(),
                host: u.host_str().map(str::to_owned),
                port: u.port(),
                path: u.path().to_owned(),
                query: u.query().map(str::to_owned),
            },
        ),
        Err(_) => None,
    }
}

impl Clone for Url {
    fn clone(&self) -> (r: Self)
        ensures
            r@ == self@,
    {
        Url {
            scheme: self.scheme.clone(),
            host: match &self.host {
                Some(h) => Some(h.clone()),
                None => None,
            },
            port: self.port,
            path: self.path.clone(),
            query: match &self.query {
                Some(q) => Some(q.clone()),
                None => None,
            },
        }
    }
}

impl Url {
    /// Parses an absolute URL.
    pub fn parse(text: &str) -> (r: Option<Url>)
        ensures
            r is Some <==> url_parse(text@) is Some,
            r is Some ==> r->Some_0@ == url_parse(text@)->Some_0,
    {
        parse_absolute(text)
    }

    /// The authority: `host` or `host:port`, without user or password.
    pub fn authority(&self) -> (r: String)
        ensures
            r@ == authority_of(self@),
    {
        match &self.host {
            Some(host) => match self.port {
                Some(port) => {
                    let digits = render_text(port as u64);
                    host.clone().concat(":").concat(digits.as_str())
                },
                None => host.clone(),
            },
            None => String::new(),
        }
    }
}

} // verus!
