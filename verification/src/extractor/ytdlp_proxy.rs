//! Extraction by letting the command-line downloader describe the video,
//! one run at a time.

use crate::error::Error;
use crate::extractor::ytdlp::{audio_format, best_format, describe_arguments, proxy_of, Format};
use crate::extractor::{watch_url, Extraction};
use vstd::prelude::*;
use vstd::string::StringExecFns;

verus! {

/// Lets the downloader print the address of a video's audio. Its runs
/// count against the limit on concurrent runs of the downloader.
pub struct YtdlpProxy;

impl YtdlpProxy {
    /// The arguments to run the downloader with for the video `video_id`.
    pub fn command(&self, video_id: &str) -> (arguments: Vec<String>)
        ensures
            arguments.deep_view() == describe_arguments(video_id@),
    {
        let mut arguments: Vec<String> = Vec::new();
        arguments.push(String::from_str("-j"));
        arguments.push(watch_url(video_id));
        assert(arguments.deep_view() == describe_arguments(video_id@));
        arguments
    }

    /// Picks the audio source from what the downloader printed.
    pub fn extract<S, F>(&self, output: Option<Vec<Format>>) -> (r: Result<Extraction<S, F>, Error>)
        ensures
            match r {
                Ok(found) => output matches Some(formats) && exists|pick: int|
                    best_format(formats@, pick) && found.is_proxy(
                        (#[trigger] formats[pick]).url@,
                        formats[pick].http_headers.deep_view(),
                    ),
                Err(e) => e is Extraction && match output {
                    Some(formats) => forall|j: int|
                        0 <= j < formats.len() ==> !audio_format(formats[j]),
                    None => true,
                },
            },
    {
        proxy_of(output)
    }
}

} // verus!
