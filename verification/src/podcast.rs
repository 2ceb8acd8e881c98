//! The podcast that a channel is turned into.

use crate::text::{decimal, decimal2, push_decimal, push_decimal2};
use vstd::prelude::*;
use vstd::string::StringExecFns;

verus! {

/// The type that the audio of every episode is announced with.
pub const AUDIO_MPEG: &'static str = "audio/mpeg";

/// A channel as a podcast.
#[derive(Debug)]
pub struct Podcast {
    pub title: String,
    pub description: String,
    pub last_build_date: String,
    pub language: String,
    pub author: String,
    pub logo_url: String,
    pub categories: Vec<String>,
    pub channel_url: String,
    pub episodes: Vec<Episode>,
}

/// A picture with its size in pixels.
#[derive(Debug)]
pub struct Thumbnail {
    pub url: String,
    pub width: u32,
    pub height: u32,
}

/// Where the audio of an episode is to be had, and its type.
#[derive(Debug)]
pub struct AudioInfo {
    pub url: String,
    pub mime_type: String,
}

/// A video as an episode.
#[derive(Debug)]
pub struct Episode {
    pub title: String,
    pub link: String,
    pub description: String,
    pub pub_date: String,
    pub author: String,
    pub guid: String,
    /// The length in seconds; zero where it is not known.
    pub duration: u64,
    pub thumbnail: Thumbnail,
    pub audio_url: String,
}

/// A length of `secs` seconds as hours, minutes and seconds, the hours
/// left out where there are none.
pub open spec fn duration_text(secs: nat) -> Seq<char> {
    let hours = secs / 3600;
    let minutes = (secs % 3600) / 60;
    let seconds = secs % 60;
    if hours > 0 {
        decimal2(hours) + ":"@ + decimal2(minutes) + ":"@ + decimal2(seconds)
    } else {
        decimal2(minutes) + ":"@ + decimal2(seconds)
    }
}

/// Writes a length of `secs` seconds as `hh:mm:ss`, or as `mm:ss` where it
/// is under an hour.
pub fn seconds_to_duration(secs: u64) -> (r: String)
    ensures
        r@ == duration_text(secs as nat),
{
    let hours = secs / 3600;
    let minutes = (secs % 3600) / 60;
    let seconds = secs % 60;
    let mut out = String::new();
    if hours > 0 {
        push_decimal2(&mut out, hours as u128);
        out.append(":");
    }
    push_decimal2(&mut out, minutes as u128);
    out.append(":");
    push_decimal2(&mut out, seconds as u128);
    out
}

/// The description of an episode as HTML: its picture, its text, and a
/// link to the video.
pub open spec fn description_markup(
    thumbnail_url: Seq<char>,
    width: u32,
    height: u32,
    description: Seq<char>,
    link: Seq<char>,
) -> Seq<char> {
    "<img loading=\"lazy\" class=\"size-thumbnail\"src=\""@ + thumbnail_url + "\" width=\""@
        + decimal(width as nat) + "\" height=\""@ + decimal(height as nat) + "\"/>\n<p>"@
        + description + "</p>\n<p><a href=\""@ + link + "\">"@ + link + "</a></p>\n"@
}

impl Thumbnail {
    /// No picture.
    pub fn none() -> (r: Thumbnail)
        ensures
            r.url@.len() == 0,
            r.width == 0,
            r.height == 0,
    {
        Thumbnail { url: String::new(), width: 0, height: 0 }
    }
}

impl Episode {
    /// The description of the episode as HTML.
    pub fn description_html(&self) -> (r: String)
        ensures
            r@ == description_markup(
                self.thumbnail.url@,
                self.thumbnail.width,
                self.thumbnail.height,
                self.description@,
                self.link@,
            ),
    {
        let mut out = String::from_str("<img loading=\"lazy\" class=\"size-thumbnail\"src=\"");
        out.append(self.thumbnail.url.as_str());
        out.append("\" width=\"");
        push_decimal(&mut out, self.thumbnail.width as u128);
        out.append("\" height=\"");
        push_decimal(&mut out, self.thumbnail.height as u128);
        out.append("\"/>\n<p>");
        out.append(self.description.as_str());
        out.append("</p>\n<p><a href=\"");
        out.append(self.link.as_str());
        out.append("\">");
        out.append(self.link.as_str());
        out.append("</a></p>\n");
        out
    }

    /// The length of the episode as the feed shows it; `None` where it is
    /// not known.
    pub fn itunes_duration(&self) -> (r: Option<String>)
        ensures
            r.deep_view() == if self.duration > 0 {
                Some(duration_text(self.duration as nat))
            } else {
                None
            },
    {
        if self.duration > 0 {
            Some(seconds_to_duration(self.duration))
        } else {
            None
        }
    }
}

impl Podcast {
    /// The language of the podcast as the feed shows it; `None` where it is
    /// not known.
    pub fn language_tag(&self) -> (r: Option<String>)
        ensures
            r.deep_view() == if self.language@.len() > 0 {
                Some(self.language@)
            } else {
                None
            },
    {
        if self.language.as_str().unicode_len() > 0 {
            Some(self.language.clone())
        } else {
            None
        }
    }
}

} // verus!
