//! The feed side of the gateway: which channel an address names, and where
//! its podcast is served.

use crate::error::Error;
use crate::harvestor::rss_piped::{strip_prefix, stripped};
use crate::pattern::{captures, regex_captures};
use crate::text::same_text;
use crate::web::{
    html_values, parse_url, select_attributes, url_fault, url_parts, CANONICAL_SELECTOR,
};
use vstd::prelude::*;
use vstd::string::StringExecFns;

verus! {

/// The type that a podcast is served with.
pub const RSS_CONTENT_TYPE: &'static str = "application/rss+xml; charset=UTF-8";

/// The regular expression that reads a channel id off the path of an
/// address.
pub const ID_PATTERN: &'static str = "^channel/([a-zA-Z0-9_]+)";

/// The regular expression that reads the name of a channel off the path of
/// an address.
pub const NAME_PATTERN: &'static str = "^c/([a-zA-Z0-9_]+)";

/// The regular expression that reads the handle of a channel off the path
/// of an address.
pub const HANDLE_PATTERN: &'static str = "^@([a-zA-Z0-9_]+)$";

/// What precedes the id of a channel in its address.
pub const CHANNEL_PREFIX: &'static str = "https://www.youtube.com/channel/";

/// A request for the address of the podcast of the channel at `url`.
pub struct GetPodcastReq {
    pub url: String,
}

/// How an address names a channel.
pub enum ChannelRef {
    /// By its id.
    Id(String),
    /// By its name, as in `/c/SciShow`.
    Name(String),
    /// By its handle, as in `/@ComplexityExplorer`.
    Handle(String),
}

/// The text that the first group of a pattern captured.
pub open spec fn first_group(caps: Option<Seq<Option<Seq<char>>>>) -> Option<Seq<char>> {
    match caps {
        Some(groups) => if groups.len() > 1 {
            groups[1]
        } else {
            None
        },
        None => None,
    }
}

/// Whether `host` is one of the video platform.
pub open spec fn platform_host(host: Option<Seq<char>>) -> bool {
    host == Some("www.youtube.com"@) || host == Some("m.youtube.com"@)
}

/// `path` without the `/` in front, empty where it has none.
pub open spec fn below_root(path: Seq<char>) -> Seq<char> {
    match stripped(path, "/"@) {
        Some(rest) => rest,
        None => Seq::empty(),
    }
}

/// Whether `r` is what the parts of the address `text` and what the three
/// patterns capture in its path say about the channel: its id, name or
/// handle, in this order of preference, or the refusal of the address.
pub open spec fn channel_ref_result(
    text: Seq<char>,
    host: Option<Seq<char>>,
    id: Option<Seq<char>>,
    name: Option<Seq<char>>,
    handle: Option<Seq<char>>,
    r: Result<ChannelRef, Error>,
) -> bool {
    if !platform_host(host) {
        r matches Err(e) && e.is_unsupported_url(text, "not youtube domain"@)
    } else if id is Some {
        r matches Ok(ChannelRef::Id(found)) && found@ == id->0
    } else if name is Some {
        r matches Ok(ChannelRef::Name(found)) && found@ == name->0
    } else if handle is Some {
        r matches Ok(ChannelRef::Handle(found)) && found@ == handle->0
    } else {
        r matches Err(e) && e.is_unsupported_url(text, "invalid youtube url"@)
    }
}

fn group_one(caps: Option<Vec<Option<String>>>) -> (r: Option<String>)
    ensures
        r.deep_view() == first_group(caps.deep_view()),
{
    match caps {
        Some(groups) => {
            if groups.len() > 1 {
                assert(groups.deep_view()[1] == groups[1].deep_view());
                let mut groups = groups;
                groups.swap_remove(1)
            } else {
                None
            }
        },
        None => None,
    }
}

/// Tells how an address names a channel from its parts and from what the
/// three patterns captured in its path.
pub fn channel_ref_from(
    text: String,
    host: Option<String>,
    id: Option<String>,
    name: Option<String>,
    handle: Option<String>,
) -> (r: Result<ChannelRef, Error>)
    ensures
        channel_ref_result(
            text@,
            host.deep_view(),
            id.deep_view(),
            name.deep_view(),
            handle.deep_view(),
            r,
        ),
{
    let on_platform = match &host {
        Some(host) => same_text(host.as_str(), "www.youtube.com") || same_text(
            host.as_str(),
            "m.youtube.com",
        ),
        None => false,
    };
    if !on_platform {
        return Err(Error::UnsupportedURL(text, "not youtube domain"));
    }
    match id {
        Some(id) => {
            return Ok(ChannelRef::Id(id));
        },
        None => {},
    }
    match name {
        Some(name) => {
            return Ok(ChannelRef::Name(name));
        },
        None => {},
    }
    match handle {
        Some(handle) => Ok(ChannelRef::Handle(handle)),
        None => Err(Error::UnsupportedURL(text, "invalid youtube url")),
    }
}

/// Tells how the address `url` names a channel. Fails with `ParseURL`
/// where `url` is no URL, and with `UnsupportedURL` where it is not an
/// address of the video platform or its path names no channel.
pub fn extract_youtube_channel_ref(url: &str) -> (r: Result<ChannelRef, Error>)
    ensures
        match url_parts(url@) {
            None => r matches Err(e) && e.is_parse_url(url_fault(url@)),
            Some(parts) => channel_ref_result(
                parts.0,
                parts.1,
                first_group(regex_captures(ID_PATTERN@, below_root(parts.2))),
                first_group(regex_captures(NAME_PATTERN@, below_root(parts.2))),
                first_group(regex_captures(HANDLE_PATTERN@, below_root(parts.2))),
                r,
            ),
        },
{
    let parts = match parse_url(url) {
        Ok(parts) => parts,
        Err(fault) => {
            return Err(Error::ParseURL(fault));
        },
    };
    let path = match strip_prefix(parts.path.as_str(), "/") {
        Some(rest) => rest,
        None => String::new(),
    };
    let id = group_one(captures(ID_PATTERN, path.as_str()));
    let name = group_one(captures(NAME_PATTERN, path.as_str()));
    let handle = group_one(captures(HANDLE_PATTERN, path.as_str()));
    channel_ref_from(parts.text, parts.host, id, name, handle)
}

/// How the id of a channel is had.
pub enum ChannelLookup {
    /// It is known.
    Known(String),
    /// It stands in the page at this address.
    Page(String),
}

/// Tells how the id of the channel that `channel_ref` names is had: from
/// the reference itself, or from the page of the channel.
pub fn channel_lookup(channel_ref: ChannelRef) -> (r: ChannelLookup)
    ensures
        match channel_ref {
            ChannelRef::Id(id) => r == ChannelLookup::Known(id),
            ChannelRef::Name(name) => r matches ChannelLookup::Page(url) && url@
                == "https://www.youtube.com/c/"@ + name@,
            ChannelRef::Handle(handle) => r matches ChannelLookup::Page(url) && url@
                == "https://www.youtube.com/@"@ + handle@,
        },
{
    match channel_ref {
        ChannelRef::Id(id) => ChannelLookup::Known(id),
        ChannelRef::Name(name) => {
            let mut url = String::from_str("https://www.youtube.com/c/");
            url.append(name.as_str());
            ChannelLookup::Page(url)
        },
        ChannelRef::Handle(handle) => {
            let mut url = String::from_str("https://www.youtube.com/@");
            url.append(handle.as_str());
            ChannelLookup::Page(url)
        },
    }
}

/// Whether `r` is what the nodes found in a page for its own address say
/// about the id of the channel: the first of them decides.
pub open spec fn channel_id_result(
    found: Seq<Option<Option<Seq<char>>>>,
    r: Result<String, Error>,
) -> bool {
    if found.len() > 0 && found[0] matches Some(Some(_)) {
        match stripped(found[0]->0->0, CHANNEL_PREFIX@) {
            Some(id) => r matches Ok(channel_id) && channel_id@ == id,
            None => r matches Err(e) && e.is_invalid_html("link[rel=canonical] url prefix"@),
        }
    } else {
        r matches Err(e) && e.is_invalid_html("link[rel=canonical]"@)
    }
}

/// Reads the id of a channel off what the nodes found in its page give as
/// its own address. Fails with `InvalidHTML` where the page gives none, or
/// one that is not the address of a channel.
pub fn channel_id_from(found: &Vec<Option<Option<String>>>) -> (r: Result<String, Error>)
    ensures
        channel_id_result(found.deep_view(), r),
{
    if found.len() == 0 {
        return Err(Error::InvalidHTML("link[rel=canonical]"));
    }
    assert(found.deep_view()[0] == found[0].deep_view());
    match &found[0] {
        Some(Some(link_url)) => match strip_prefix(link_url.as_str(), CHANNEL_PREFIX) {
            Some(channel_id) => Ok(channel_id),
            None => Err(Error::InvalidHTML("link[rel=canonical] url prefix")),
        },
        _ => Err(Error::InvalidHTML("link[rel=canonical]")),
    }
}

/// Reads the id of a channel off its page. Fails with `ParseHTML` where
/// the page cannot be parsed, and with `InvalidHTML` where it does not
/// give the address of a channel as its own.
pub fn find_youtube_channel_id(html: &str) -> (r: Result<String, Error>)
    ensures
        match html_values(html@, CANONICAL_SELECTOR@, "href"@) {
            Err(fault) => r matches Err(e) && e.is_parse_html(fault),
            Ok(None) => r matches Err(e) && e.is_invalid_html("link[rel=canonical]"@),
            Ok(Some(found)) => channel_id_result(found, r),
        },
{
    match select_attributes(html, CANONICAL_SELECTOR, "href") {
        Ok(Some(found)) => channel_id_from(&found),
        Ok(None) => Err(Error::InvalidHTML("link[rel=canonical]")),
        Err(fault) => Err(Error::ParseHTML(fault)),
    }
}

/// The address below `public_url` at which the podcast of the channel
/// `channel_id` is served.
pub fn channel_podcast_url(public_url: &str, channel_id: &str) -> (url: String)
    ensures
        url@ == public_url@ + "/channel/"@ + channel_id@,
{
    let mut url = String::from_str(public_url);
    url.append("/channel/");
    url.append(channel_id);
    url
}

/// The name that a client goes by: what it sent as `User-Agent`, or
/// `unknown`.
pub fn client_name<'a>(user_agent: Option<&'a str>) -> (name: &'a str)
    ensures
        name@ == match user_agent {
            Some(agent) => agent@,
            None => "unknown"@,
        },
{
    match user_agent {
        Some(agent) => agent,
        None => "unknown",
    }
}

} // verus!
