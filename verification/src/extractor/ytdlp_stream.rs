//! Extraction by letting the command-line downloader write the audio to
//! its output as it comes in.

use crate::error::Error;
use crate::extractor::ytdlp_file::{detect_error_text, ERROR_MARK};
use crate::extractor::{
    exit_message, exit_text, watch_address, watch_url, Extraction, AUDIO_MP4, BEST_M4A,
};
use crate::text::{lossy_text, occurs_in, utf8_lossy};
use crate::util::byte_stream::{bytes_as_slice, bytes_content};
use bytes::Bytes;
use vstd::prelude::*;
use vstd::string::StringExecFns;

verus! {

/// What the downloader's description of a video says about the audio.
pub struct InfoJson {
    pub filesize: Option<u64>,
}

/// The arguments that make the downloader describe the audio of the video
/// `video_id`.
pub open spec fn info_arguments(video_id: Seq<char>) -> Seq<Seq<char>> {
    seq!["-j"@, "-f"@, BEST_M4A@, watch_address(video_id)]
}

/// The arguments that make the downloader read a description from its
/// input and write the audio to its output.
pub open spec fn stream_arguments() -> Seq<Seq<char>> {
    seq!["--load-info-json"@, "-"@, "-f"@, BEST_M4A@, "-o"@, "-"@]
}

/// Streams the audio of a video as the downloader delivers it.
pub struct YtdlpStream;

impl YtdlpStream {
    /// The arguments of the run that describes the audio of the video
    /// `video_id`.
    pub fn info_command(&self, video_id: &str) -> (arguments: Vec<String>)
        ensures
            arguments.deep_view() == info_arguments(video_id@),
    {
        let mut arguments: Vec<String> = Vec::new();
        arguments.push(String::from_str("-j"));
        arguments.push(String::from_str("-f"));
        arguments.push(String::from_str(BEST_M4A));
        arguments.push(watch_url(video_id));
        assert(arguments.deep_view() == info_arguments(video_id@));
        arguments
    }

    /// The arguments of the run that delivers the audio.
    pub fn stream_command(&self) -> (arguments: Vec<String>)
        ensures
            arguments.deep_view() == stream_arguments(),
    {
        let mut arguments: Vec<String> = Vec::new();
        arguments.push(String::from_str("--load-info-json"));
        arguments.push(String::from_str("-"));
        arguments.push(String::from_str("-f"));
        arguments.push(String::from_str(BEST_M4A));
        arguments.push(String::from_str("-o"));
        arguments.push(String::from_str("-"));
        assert(arguments.deep_view() == stream_arguments());
        arguments
    }

    /// Wraps the downloader's output as an extraction result. `info` is
    /// what its description said, `None` where that could not be read, in
    /// which case the extraction fails with `Extraction`.
    pub fn extract<S, F>(&self, info: Option<InfoJson>, stream: S) -> (r: Result<
        Extraction<S, F>,
        Error,
    >)
        ensures
            match info {
                Some(info) => r matches Ok(Extraction::Stream { stream: out, filesize, mime_type })
                    && out == stream && filesize == info.filesize && mime_type@ == AUDIO_MP4@,
                None => r matches Err(Error::Extraction),
            },
    {
        match info {
            Some(info) => Ok(
                Extraction::Stream {
                    stream,
                    filesize: info.filesize,
                    mime_type: String::from_str(AUDIO_MP4),
                },
            ),
            None => Err(Error::Extraction),
        }
    }
}

/// Judges the run that describes a video by the texts it wrote: its
/// output where it ended well, else a failure that shows the exit code and
/// what it wrote about its problems.
pub fn info_from_texts(success: bool, code: Option<i32>, stdout: String, stderr: String) -> (r:
    Result<String, Error>)
    ensures
        match r {
            Ok(text) => success && text == stdout,
            Err(e) => !success && e.is_audio_stream(exit_text(code, stderr@)),
        },
{
    if success {
        return Ok(stdout);
    }
    Err(Error::AudioStream(exit_message(code, stderr.as_str())))
}

/// Judges the run that describes a video: the text it printed where it
/// ended well, else a failure that shows the exit code and what it wrote
/// about its problems.
pub fn get_info_json(success: bool, code: Option<i32>, stdout: &[u8], stderr: &[u8]) -> (r: Result<
    String,
    Error,
>)
    ensures
        match r {
            Ok(text) => success && text@ == utf8_lossy(stdout@),
            Err(e) => !success && e.is_audio_stream(exit_text(code, utf8_lossy(stderr@))),
        },
{
    info_from_texts(success, code, lossy_text(stdout), lossy_text(stderr))
}

/// Looks at a chunk of what the downloader wrote about its problems while
/// it delivers the audio. Nothing of it is passed on: the chunk is answered
/// with an empty one, or with the failure that it reports.
pub fn detect_error(bytes: Bytes) -> (r: Result<Bytes, Error>)
    ensures
        match r {
            Ok(chunk) => bytes_content(chunk).len() == 0 && !occurs_in(
                utf8_lossy(bytes_content(bytes)),
                ERROR_MARK@,
            ),
            Err(e) => occurs_in(utf8_lossy(bytes_content(bytes)), ERROR_MARK@)
                && e.is_audio_stream(utf8_lossy(bytes_content(bytes))),
        },
{
    match detect_error_text(lossy_text(bytes_as_slice(&bytes))) {
        Ok(_) => Ok(Bytes::new()),
        Err(e) => Err(e),
    }
}

} // verus!
