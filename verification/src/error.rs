//! The failures of the gateway and the status each is answered with.

use vstd::prelude::*;
use vstd::string::StringExecFns;

verus! {

/// What can go wrong while a feed is built or an audio source is found.
#[derive(Debug)]
#[non_exhaustive]
pub enum Error {
    /// A request to an upstream service failed; the text says how.
    RequestUpstream(String),
    /// The channel's Atom feed could not be read.
    AtomFormat(String),
    /// The podcast document could not be written.
    RSSFormat(String),
    /// A feed entry (named by its id) lacks what an episode needs.
    InvalidFeedEntry(String, &'static str),
    /// A page could not be parsed as HTML.
    ParseHTML(String),
    /// A text could not be parsed as a URL.
    ParseURL(String),
    /// A page lacks the named piece of information.
    InvalidHTML(&'static str),
    /// A URL that does not name a channel; the second field says why.
    UnsupportedURL(String, &'static str),
    /// A response could not be put together.
    HTTP(String),
    /// Reading or writing a file or a pipe failed.
    IO(String),
    /// The mirror API answered with something unusable.
    Invidious(&'static str),
    /// No audio could be had for a video; the text says why.
    AudioStream(String),
    /// The embedded extraction routine failed.
    Rustube(String),
    /// An extractor found no usable format, or its output was malformed.
    Extraction,
    /// A text that is not a channel id.
    InvalidId(String),
    /// The channel metadata client failed.
    Ytextract(String),
}

pub const BAD_REQUEST: u16 = 400;

pub const INTERNAL_SERVER_ERROR: u16 = 500;

pub const BAD_GATEWAY: u16 = 502;

impl Error {
    /// The HTTP status that answers a request which ended in this failure:
    /// 502 where an upstream service or its output is at fault, 400 where
    /// the client's input is, 500 otherwise.
    pub open spec fn status(self) -> u16 {
        match self {
            Error::RequestUpstream(_) => BAD_GATEWAY,
            Error::AtomFormat(_) => BAD_GATEWAY,
            Error::RSSFormat(_) => BAD_GATEWAY,
            Error::ParseHTML(_) => BAD_GATEWAY,
            Error::ParseURL(_) => BAD_GATEWAY,
            Error::InvalidHTML(_) => BAD_GATEWAY,
            Error::HTTP(_) => BAD_GATEWAY,
            Error::UnsupportedURL(_, _) => BAD_REQUEST,
            _ => INTERNAL_SERVER_ERROR,
        }
    }

    /// The text that is shown for this failure.
    pub open spec fn text(self) -> Seq<char> {
        match self {
            Error::RequestUpstream(e) => "failed requesting upstream: "@ + e@,
            Error::AtomFormat(e) => "atom feed format error: "@ + e@,
            Error::RSSFormat(e) => "rss feed format error: "@ + e@,
            Error::InvalidFeedEntry(id, why) => "invalid feed: "@ + id@ + " ("@ + why@ + ")"@,
            Error::ParseHTML(e) => "parse html error: "@ + e@,
            Error::ParseURL(e) => "parse url error: "@ + e@,
            Error::InvalidHTML(what) => "info not found in html: "@ + what@,
            Error::UnsupportedURL(url, why) => "unsupported url: "@ + url@ + " ("@ + why@ + ")"@,
            Error::HTTP(e) => "http error: "@ + e@,
            Error::IO(e) => "io error: "@ + e@,
            Error::Invidious(what) => "request invidious error: "@ + what@,
            Error::AudioStream(why) => "unable to get audio stream: "@ + why@,
            Error::Rustube(e) => "rustube error: "@ + e@,
            Error::Extraction => "extraction error"@,
            Error::InvalidId(id) => "invalid id: "@ + id@,
            Error::Ytextract(e) => "ytextract error: "@ + e@,
        }
    }

    /// Whether this is the failure to get audio, for the reason `why`.
    pub open spec fn is_audio_stream(self, why: Seq<char>) -> bool {
        match self {
            Error::AudioStream(text) => text@ == why,
            _ => false,
        }
    }

    /// Whether this is the failure of the feed entry `id`, for the reason
    /// `why`.
    pub open spec fn is_invalid_entry(self, id: Seq<char>, why: Seq<char>) -> bool {
        match self {
            Error::InvalidFeedEntry(entry, reason) => entry@ == id && reason@ == why,
            _ => false,
        }
    }

    /// Whether this is the failure to parse a URL, with what the parser
    /// said.
    pub open spec fn is_parse_url(self, fault: Seq<char>) -> bool {
        match self {
            Error::ParseURL(text) => text@ == fault,
            _ => false,
        }
    }

    /// Whether this is the failure to parse a page, with what the parser
    /// said.
    pub open spec fn is_parse_html(self, fault: Seq<char>) -> bool {
        match self {
            Error::ParseHTML(text) => text@ == fault,
            _ => false,
        }
    }

    /// Whether this is the refusal of the URL `url`, for the reason `why`.
    pub open spec fn is_unsupported_url(self, url: Seq<char>, why: Seq<char>) -> bool {
        match self {
            Error::UnsupportedURL(text, reason) => text@ == url && reason@ == why,
            _ => false,
        }
    }

    /// Whether this is the failure to find `what` in a page.
    pub open spec fn is_invalid_html(self, what: Seq<char>) -> bool {
        match self {
            Error::InvalidHTML(text) => text@ == what,
            _ => false,
        }
    }

    /// The HTTP status that answers a request which ended in this failure.
    pub fn status_code(&self) -> (code: u16)
        ensures
            code == self.status(),
            code == BAD_REQUEST || code == INTERNAL_SERVER_ERROR || code == BAD_GATEWAY,
    {
        match self {
            Error::RequestUpstream(_) => BAD_GATEWAY,
            Error::AtomFormat(_) => BAD_GATEWAY,
            Error::RSSFormat(_) => BAD_GATEWAY,
            Error::ParseHTML(_) => BAD_GATEWAY,
            Error::ParseURL(_) => BAD_GATEWAY,
            Error::InvalidHTML(_) => BAD_GATEWAY,
            Error::HTTP(_) => BAD_GATEWAY,
            Error::UnsupportedURL(_, _) => BAD_REQUEST,
            _ => INTERNAL_SERVER_ERROR,
        }
    }

    /// The text that is shown for this failure.
    pub fn message(&self) -> (m: String)
        ensures
            m@ == self.text(),
    {
        match self {
            Error::RequestUpstream(e) => labelled("failed requesting upstream: ", e.as_str()),
            Error::AtomFormat(e) => labelled("atom feed format error: ", e.as_str()),
            Error::RSSFormat(e) => labelled("rss feed format error: ", e.as_str()),
            Error::InvalidFeedEntry(id, why) => labelled_with_reason(
                "invalid feed: ",
                id.as_str(),
                why,
            ),
            Error::ParseHTML(e) => labelled("parse html error: ", e.as_str()),
            Error::ParseURL(e) => labelled("parse url error: ", e.as_str()),
            Error::InvalidHTML(what) => labelled("info not found in html: ", what),
            Error::UnsupportedURL(url, why) => labelled_with_reason(
                "unsupported url: ",
                url.as_str(),
                why,
            ),
            Error::HTTP(e) => labelled("http error: ", e.as_str()),
            Error::IO(e) => labelled("io error: ", e.as_str()),
            Error::Invidious(what) => labelled("request invidious error: ", what),
            Error::AudioStream(why) => labelled("unable to get audio stream: ", why.as_str()),
            Error::Rustube(e) => labelled("rustube error: ", e.as_str()),
            Error::Extraction => String::from_str("extraction error"),
            Error::InvalidId(id) => labelled("invalid id: ", id.as_str()),
            Error::Ytextract(e) => labelled("ytextract error: ", e.as_str()),
        }
    }
}

fn labelled(label: &str, detail: &str) -> (m: String)
    ensures
        m@ == label@ + detail@,
{
    let mut m = String::from_str(label);
    m.append(detail);
    m
}

fn labelled_with_reason(label: &str, subject: &str, reason: &str) -> (m: String)
    ensures
        m@ == label@ + subject@ + " ("@ + reason@ + ")"@,
{
    let mut m = String::from_str(label);
    m.append(subject);
    m.append(" (");
    m.append(reason);
    m.append(")");
    m
}

} // verus!
