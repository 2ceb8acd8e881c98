//! Extraction by letting the command-line downloader describe the video.

use crate::error::Error;
use crate::extractor::{watch_address, watch_url, Extraction};
use crate::text::same_text;
use vstd::prelude::*;
use vstd::string::StringExecFns;

verus! {

/// One format of a video as the downloader describes it.
pub struct Format {
    /// The downloader's name for the format.
    pub format: String,
    /// The downloader's rating of the format, as an integer that orders
    /// the formats as the rating does; that of the rating zero where the
    /// downloader gave none.
    pub quality: i64,
    pub resolution: String,
    pub audio_ext: String,
    pub url: String,
    /// The headers that the address is to be fetched with.
    pub http_headers: Vec<(String, String)>,
    /// The number of fragments that the format comes in, zero where the
    /// downloader names none. A format in more than one fragment is not
    /// delivered by a single address.
    pub fragments: usize,
}

/// Whether `format` is audio alone, in an MPEG-4 container, to be had from
/// one address: it comes in one fragment at most.
pub open spec fn audio_format(format: Format) -> bool {
    format.resolution@ == "audio only"@ && format.audio_ext@ == "m4a"@ && format.fragments <= 1
}

/// Whether `pick` is the best of `formats`: an audio format of the highest
/// quality, the last of them where several share it.
pub open spec fn best_format(formats: Seq<Format>, pick: int) -> bool {
    &&& 0 <= pick < formats.len()
    &&& audio_format(formats[pick])
    &&& forall|j: int|
        0 <= j < formats.len() && audio_format(#[trigger] formats[j]) ==> formats[j].quality
            <= formats[pick].quality
    &&& forall|j: int|
        pick < j < formats.len() && audio_format(#[trigger] formats[j]) ==> formats[j].quality
            < formats[pick].quality
}

/// The arguments that make the downloader describe the video `video_id`.
pub open spec fn describe_arguments(video_id: Seq<char>) -> Seq<Seq<char>> {
    seq!["-j"@, watch_address(video_id)]
}

/// Picks the best audio format.
pub fn select_format(formats: &Vec<Format>) -> (r: Option<usize>)
    ensures
        match r {
            Some(pick) => best_format(formats@, pick as int),
            None => forall|j: int| 0 <= j < formats.len() ==> !audio_format(formats[j]),
        },
{
    let mut best: Option<usize> = None;
    let mut i: usize = 0;
    while i < formats.len()
        invariant
            i <= formats.len(),
            match best {
                Some(pick) => pick < i && best_format(formats@.take(i as int), pick as int),
                None => forall|j: int| 0 <= j < i ==> !audio_format(formats[j]),
            },
        decreases formats.len() - i,
    {
        let ghost seen = formats@.take(i as int);
        let ghost next = formats@.take(i + 1);
        assert(forall|j: int| 0 <= j < i ==> next[j] == seen[j]);
        let format = &formats[i];
        if same_text(format.resolution.as_str(), "audio only") && same_text(
            format.audio_ext.as_str(),
            "m4a",
        ) && format.fragments <= 1 {
            match best {
                Some(pick) => {
                    if formats[pick].quality <= format.quality {
                        best = Some(i);
                    }
                },
                None => {
                    best = Some(i);
                },
            }
        }
        i = i + 1;
    }
    assert(formats@.take(formats.len() as int) == formats@);
    best
}

/// Picks the audio source from what the downloader printed about a video:
/// the address of the best audio format, with the headers that the format
/// asks for. `output` is `None` where what it printed could not be read.
/// Fails with `Extraction` there, and where no format is an audio format.
pub fn proxy_of<S, F>(output: Option<Vec<Format>>) -> (r: Result<Extraction<S, F>, Error>)
    ensures
        match r {
            Ok(found) => output matches Some(formats) && exists|pick: int|
                best_format(formats@, pick) && found.is_proxy(
                    (#[trigger] formats[pick]).url@,
                    formats[pick].http_headers.deep_view(),
                ),
            Err(e) => e is Extraction && match output {
                Some(formats) => forall|j: int|
                    0 <= j < formats.len() ==> !audio_format(formats[j]),
                None => true,
            },
        },
{
    match output {
        None => Err(Error::Extraction),
        Some(formats) => {
            match select_format(&formats) {
                None => Err(Error::Extraction),
                Some(pick) => {
                    let mut formats = formats;
                    let format = formats.swap_remove(pick);
                    Ok(Extraction::Proxy { url: format.url, headers: format.http_headers })
                },
            }
        },
    }
}

/// Lets the downloader print the address of a video's audio.
pub struct Ytdlp;

impl Ytdlp {
    /// The arguments to run the downloader with for the video `video_id`.
    pub fn command(&self, video_id: &str) -> (arguments: Vec<String>)
        ensures
            arguments.deep_view() == describe_arguments(video_id@),
    {
        let mut arguments: Vec<String> = Vec::new();
        arguments.push(String::from_str("-j"));
        arguments.push(watch_url(video_id));
        assert(arguments.deep_view() == describe_arguments(video_id@));
        arguments
    }

    /// Picks the audio source from what the downloader printed.
    pub fn extract<S, F>(&self, output: Option<Vec<Format>>) -> (r: Result<Extraction<S, F>, Error>)
        ensures
            match r {
                Ok(found) => output matches Some(formats) && exists|pick: int|
                    best_format(formats@, pick) && found.is_proxy(
                        (#[trigger] formats[pick]).url@,
                        formats[pick].http_headers.deep_view(),
                    ),
                Err(e) => e is Extraction && match output {
                    Some(formats) => forall|j: int|
                        0 <= j < formats.len() ==> !audio_format(formats[j]),
                    None => true,
                },
            },
    {
        proxy_of(output)
    }
}

} // verus!
