//! What an episode takes from an entry of the channel's feed.

use crate::atom::{listed, lookup, Element, Entry};
use crate::error::Error;
use crate::extractor::piped::AudioStream;
use crate::piped::PipedInstance;
use crate::podcast::{AudioInfo, Thumbnail, AUDIO_MPEG};
use crate::text::{chars_of, parse_word, word};
use crate::util::W;
use crate::web::{parse_url, url_fault, url_parts};
use vstd::prelude::*;
use vstd::string::StringExecFns;

verus! {

/// The first element named `name` below the entry's first `media:group`,
/// or why there is none.
pub open spec fn media_child(entry: Entry, name: Seq<char>) -> Result<Element, Seq<char>> {
    match listed(entry.extensions@, "media"@) {
        None => Err("not media extension"@),
        Some(media) => match listed(media@, "group"@) {
            None => Err("not media group"@),
            Some(groups) => if groups.len() == 0 {
                Err("not media group"@)
            } else {
                match listed(groups[0].children@, name) {
                    None => Err("no media group children"@),
                    Some(children) => if children.len() == 0 {
                        Err("no media group children"@)
                    } else {
                        Ok(children[0])
                    },
                }
            },
        },
    }
}

/// The description of the entry's video, or why there is none.
pub open spec fn entry_description(entry: Entry) -> Result<Seq<char>, Seq<char>> {
    match media_child(entry, "description"@) {
        Err(why) => Err(why),
        Ok(child) => match child.value {
            Some(text) => Ok(text@),
            None => Err("invalid description attribute"@),
        },
    }
}

/// The number of pixels that `text` denotes, zero where it denotes none.
pub open spec fn pixels(text: Seq<char>) -> u32 {
    match word(text) {
        Some(n) => if n <= u32::MAX {
            n as u32
        } else {
            0
        },
        None => 0,
    }
}

/// The picture of the entry's video with its size, or why there is none.
pub open spec fn entry_thumbnail(entry: Entry) -> Result<(Seq<char>, u32, u32), Seq<char>> {
    match media_child(entry, "thumbnail"@) {
        Err(why) => Err(why),
        Ok(child) => match (
            listed(child.attrs@, "url"@),
            listed(child.attrs@, "width"@),
            listed(child.attrs@, "height"@),
        ) {
            (Some(url), Some(width), Some(height)) => Ok((url@, pixels(width@), pixels(height@))),
            _ => Err("invalid thumbnail attribute"@),
        },
    }
}

/// The id of the entry's video, or why there is none.
pub open spec fn entry_video_id(entry: Entry) -> Result<Seq<char>, Seq<char>> {
    match listed(entry.extensions@, "yt"@) {
        None => Err("not yt extension"@),
        Some(yt) => match listed(yt@, "videoId"@) {
            None => Err("no yt:videoId found"@),
            Some(ids) => if ids.len() == 0 {
                Err("no yt:videoId value"@)
            } else {
                match ids[0].value {
                    Some(id) => Ok(id@),
                    None => Err("no yt:videoId value"@),
                }
            },
        },
    }
}

/// The value of the first pair named `name` of a query.
pub open spec fn query_value(query: Seq<(Seq<char>, Seq<char>)>, name: Seq<char>) -> Option<
    Seq<char>,
>
    decreases query.len(),
{
    if query.len() == 0 {
        None
    } else if query[0].0 == name {
        Some(query[0].1)
    } else {
        query_value(query.drop_first(), name)
    }
}

/// Looks up the value of the first pair named `name` of a query.
pub fn find_query_value<'a>(query: &'a Vec<(String, String)>, name: &str) -> (r: Option<&'a str>)
    ensures
        r.deep_view() == query_value(query.deep_view(), name@),
{
    let ghost all = query.deep_view();
    let mut i: usize = 0;
    assert(all.skip(0) == all);
    while i < query.len()
        invariant
            i <= query.len(),
            all == query.deep_view(),
            query_value(all, name@) == query_value(all.skip(i as int), name@),
        decreases query.len() - i,
    {
        assert(all.skip(i as int)[0] == query@[i as int].deep_view());
        assert(all.skip(i as int).drop_first() == all.skip(i + 1));
        if crate::text::same_text(query[i].0.as_str(), name) {
            return Some(query[i].1.as_str());
        }
        i = i + 1;
    }
    None
}

/// The address below `public_url` that serves the audio of the video
/// `video_id`.
pub open spec fn audio_address(public_url: Seq<char>, video_id: Seq<char>) -> Seq<char> {
    public_url + "/audio/"@ + video_id
}

/// The address below `public_url` that serves the audio of the video
/// `video_id`.
pub fn audio_url(public_url: &str, video_id: &str) -> (r: String)
    ensures
        r@ == audio_address(public_url@, video_id@),
{
    let mut url = String::from_str(public_url);
    url.append("/audio/");
    url.append(video_id);
    url
}

/// Turns the pairs of the query of a video's address into the address
/// below `public_url` that serves its audio. Fails with `UnsupportedURL`
/// where no pair is named `v`.
pub fn audio_url_from_query(
    uri_str: &str,
    query: &Vec<(String, String)>,
    public_url: &str,
) -> (r: Result<String, Error>)
    ensures
        match r {
            Ok(url) => query_value(query.deep_view(), "v"@) matches Some(id) && url@
                == audio_address(public_url@, id),
            Err(e) => query_value(query.deep_view(), "v"@) is None && e.is_unsupported_url(
                uri_str@,
                "v parameter not found"@,
            ),
        },
{
    match find_query_value(query, "v") {
        Some(video_id) => Ok(audio_url(public_url, video_id)),
        None => Err(Error::UnsupportedURL(String::from_str(uri_str), "v parameter not found")),
    }
}

/// The address below `public_url` that serves the audio of the video
/// whose address is `uri`; `None` where `uri` is no URL or its query names
/// no video.
pub open spec fn translated(uri: Seq<char>, public_url: Seq<char>) -> Option<Seq<char>> {
    match url_parts(uri) {
        Some(parts) => match query_value(parts.3, "v"@) {
            Some(id) => Some(audio_address(public_url, id)),
            None => None,
        },
        None => None,
    }
}

/// Turns the address of a video into the address below `public_url` that
/// serves its audio. Fails with `ParseURL` where `uri_str` is no URL, and
/// with `UnsupportedURL` where its query names no video.
pub fn translate_video_to_audio_url(uri_str: &str, public_url: &str) -> (r: Result<String, Error>)
    ensures
        match r {
            Ok(url) => translated(uri_str@, public_url@) == Some(url@),
            Err(e) => translated(uri_str@, public_url@) is None && match url_parts(uri_str@) {
                Some(parts) => e.is_unsupported_url(uri_str@, "v parameter not found"@),
                None => e.is_parse_url(url_fault(uri_str@)),
            },
        },
{
    match parse_url(uri_str) {
        Ok(parts) => audio_url_from_query(uri_str, &parts.query, public_url),
        Err(fault) => Err(Error::ParseURL(fault)),
    }
}

fn pixels_of(text: &str) -> (r: u32)
    ensures
        r == pixels(text@),
{
    let chars = chars_of(text);
    match parse_word(&chars) {
        Some(n) => if n <= 0xffff_ffff {
            n as u32
        } else {
            0
        },
        None => 0,
    }
}

impl<'a> W<&'a Entry> {
    fn invalid(&self, why: &'static str) -> (e: Error)
        ensures
            e.is_invalid_entry(self.0.id@, why@),
    {
        Error::InvalidFeedEntry(self.0.id.clone(), why)
    }

    fn media_group_child(&self, name: &str) -> (r: Result<&'a Element, Error>)
        ensures
            match r {
                Ok(child) => media_child(*self.0, name@) == Ok::<Element, Seq<char>>(*child),
                Err(e) => media_child(*self.0, name@) matches Err(why) && e.is_invalid_entry(
                    self.0.id@,
                    why,
                ),
            },
    {
        let entry: &'a Entry = self.0;
        let media = match lookup(&entry.extensions, "media") {
            Some(media) => media,
            None => {
                return Err(self.invalid("not media extension"));
            },
        };
        let groups = match lookup(media, "group") {
            Some(groups) => groups,
            None => {
                return Err(self.invalid("not media group"));
            },
        };
        if groups.len() == 0 {
            return Err(self.invalid("not media group"));
        }
        let children = match lookup(&groups[0].children, name) {
            Some(children) => children,
            None => {
                return Err(self.invalid("no media group children"));
            },
        };
        if children.len() == 0 {
            return Err(self.invalid("no media group children"));
        }
        Ok(&children[0])
    }

    /// The description of the video: the text of `media:description`.
    /// Fails with `InvalidFeedEntry` where the entry has none.
    pub fn description(&self) -> (r: Result<String, Error>)
        ensures
            match r {
                Ok(text) => entry_description(*self.0) == Ok::<Seq<char>, Seq<char>>(text@),
                Err(e) => entry_description(*self.0) matches Err(why) && e.is_invalid_entry(
                    self.0.id@,
                    why,
                ),
            },
    {
        match self.media_group_child("description") {
            Err(e) => Err(e),
            Ok(child) => match &child.value {
                Some(text) => Ok(text.clone()),
                None => Err(self.invalid("invalid description attribute")),
            },
        }
    }

    /// The picture of the video: the address and the size that
    /// `media:thumbnail` gives, a size that is no number counting as zero.
    /// Fails with `InvalidFeedEntry` where the entry has no such element or
    /// the element lacks one of the three.
    pub fn thumbnail(&self) -> (r: Result<Thumbnail, Error>)
        ensures
            match r {
                Ok(found) => entry_thumbnail(*self.0) == Ok::<(Seq<char>, u32, u32), Seq<char>>(
                    (found.url@, found.width, found.height),
                ),
                Err(e) => entry_thumbnail(*self.0) matches Err(why) && e.is_invalid_entry(
                    self.0.id@,
                    why,
                ),
            },
    {
        match self.media_group_child("thumbnail") {
            Err(e) => Err(e),
            Ok(child) => {
                let url = lookup(&child.attrs, "url");
                let width = lookup(&child.attrs, "width");
                let height = lookup(&child.attrs, "height");
                match (url, width, height) {
                    (Some(url), Some(width), Some(height)) => Ok(
                        Thumbnail {
                            url: url.clone(),
                            width: pixels_of(width.as_str()),
                            height: pixels_of(height.as_str()),
                        },
                    ),
                    _ => Err(self.invalid("invalid thumbnail attribute")),
                }
            },
        }
    }

    /// The address of the video: that of the entry's first link. Fails with
    /// `InvalidFeedEntry` where the entry has no link.
    pub fn link(&self) -> (r: Result<String, Error>)
        ensures
            match r {
                Ok(href) => self.0.links.len() > 0 && href@ == self.0.links[0]@,
                Err(e) => self.0.links.len() == 0 && e.is_invalid_entry(
                    self.0.id@,
                    "no link found"@,
                ),
            },
    {
        if self.0.links.len() > 0 {
            Ok(self.0.links[0].clone())
        } else {
            Err(self.invalid("no link found"))
        }
    }

    /// The id of the video: the text of `yt:videoId`. Fails with
    /// `InvalidFeedEntry` where the entry has none.
    pub fn video_id(&self) -> (r: Result<String, Error>)
        ensures
            match r {
                Ok(id) => entry_video_id(*self.0) == Ok::<Seq<char>, Seq<char>>(id@),
                Err(e) => entry_video_id(*self.0) matches Err(why) && e.is_invalid_entry(
                    self.0.id@,
                    why,
                ),
            },
    {
        let yt = match lookup(&self.0.extensions, "yt") {
            Some(yt) => yt,
            None => {
                return Err(self.invalid("not yt extension"));
            },
        };
        let ids = match lookup(yt, "videoId") {
            Some(ids) => ids,
            None => {
                return Err(self.invalid("no yt:videoId found"));
            },
        };
        if ids.len() == 0 {
            return Err(self.invalid("no yt:videoId value"));
        }
        match &ids[0].value {
            Some(id) => Ok(id.clone()),
            None => Err(self.invalid("no yt:videoId value")),
        }
    }

    /// Where the audio of the video is served below `public_url`, worked
    /// out from the entry's link.
    pub fn audio_info(&self, public_url: &str) -> (r: Result<AudioInfo, Error>)
        ensures
            match r {
                Ok(info) => self.0.links.len() > 0 && translated(self.0.links[0]@, public_url@)
                    == Some(info.url@) && info.mime_type@ == AUDIO_MPEG@,
                Err(e) => if self.0.links.len() == 0 {
                    e.is_invalid_entry(self.0.id@, "no link found"@)
                } else {
                    translated(self.0.links[0]@, public_url@) is None && match url_parts(
                        self.0.links[0]@,
                    ) {
                        Some(parts) => e.is_unsupported_url(
                            self.0.links[0]@,
                            "v parameter not found"@,
                        ),
                        None => e.is_parse_url(url_fault(self.0.links[0]@)),
                    }
                },
            },
    {
        let link = match self.link() {
            Ok(link) => link,
            Err(e) => {
                return Err(e);
            },
        };
        match translate_video_to_audio_url(link.as_str(), public_url) {
            Ok(url) => Ok(AudioInfo { url, mime_type: String::from_str(AUDIO_MPEG) }),
            Err(e) => Err(e),
        }
    }

    /// The address at which the instance `piped` of the mirror API lists
    /// the streams of the entry's video. Fails with `InvalidFeedEntry` where
    /// the entry names no video.
    pub fn piped_audio_request(&self, piped: &PipedInstance) -> (r: Result<String, Error>)
        ensures
            match r {
                Ok(url) => entry_video_id(*self.0) matches Ok(id) && url@ == piped.api()
                    + "/streams/"@ + id,
                Err(e) => entry_video_id(*self.0) matches Err(why) && e.is_invalid_entry(
                    self.0.id@,
                    why,
                ),
            },
    {
        match self.video_id() {
            Ok(video_id) => Ok(piped.stream_url(video_id.as_str())),
            Err(e) => Err(e),
        }
    }

    /// Where the audio of the video is to be had according to the mirror
    /// API, which listed `audio_streams` for it, the best first. Fails with
    /// `InvalidFeedEntry` where the entry names no video, and with
    /// `Extraction` where the API listed no stream.
    pub fn piped_audio_info(&self, audio_streams: Vec<AudioStream>) -> (r: Result<
        AudioInfo,
        Error,
    >)
        ensures
            match r {
                Ok(info) => entry_video_id(*self.0) is Ok && audio_streams.len() > 0 && info.url
                    == audio_streams[0].url && info.mime_type == audio_streams[0].mime_type,
                Err(e) => match entry_video_id(*self.0) {
                    Err(why) => e.is_invalid_entry(self.0.id@, why),
                    Ok(_) => audio_streams.len() == 0 && e is Extraction,
                },
            },
    {
        match self.video_id() {
            Ok(_) => {},
            Err(e) => {
                return Err(e);
            },
        }
        if audio_streams.len() == 0 {
            return Err(Error::Extraction);
        }
        let mut audio_streams = audio_streams;
        let first = audio_streams.swap_remove(0);
        Ok(AudioInfo { url: first.url, mime_type: first.mime_type })
    }
}

} // verus!
