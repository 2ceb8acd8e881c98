//! Extraction by letting the command-line downloader fill a cache file.

use crate::audio_store::AudioFile;
use crate::error::Error;
use crate::extractor::{
    exit_message, exit_text, watch_address, watch_url, Extraction, AUDIO_MP4, BEST_M4A,
};
use crate::pattern::{regex_replace, replace};
use crate::text::{chars_of, find, lossy_text, occurs_in, utf8_lossy};
use vstd::prelude::*;
use vstd::string::StringExecFns;

verus! {

/// The mark that the downloader puts in front of what went wrong.
pub const ERROR_MARK: &'static str = "ERROR:";

/// The regular expression that finds the name and password in the address
/// of a proxy.
pub const AUTH_PATTERN: &'static str = "//[^:]+(:[^@]+)@";

/// What stands in for the name and password where the address of a proxy is
/// shown.
pub const REDACTED: &'static str = "//<REDACTED>@";

/// The arguments that make the downloader write the audio of the video
/// `id` to `temp_path`, through `proxy` where one is set.
pub open spec fn download_arguments(
    id: Seq<char>,
    temp_path: Seq<char>,
    proxy: Option<Seq<char>>,
) -> Seq<Seq<char>> {
    let plain = seq![
        "-f"@,
        BEST_M4A@,
        "--no-progress"@,
        "-o"@,
        temp_path,
        "--no-mtime"@,
        watch_address(id),
    ];
    match proxy {
        Some(address) => plain + seq!["--proxy"@, address],
        None => plain,
    }
}

/// Tells from what the downloader wrote about its problems whether the
/// download failed: it did where the mark of an error stands in the text.
/// The failure carries the text.
pub fn detect_error_text(text: String) -> (r: Result<(), Error>)
    ensures
        match r {
            Ok(_) => !occurs_in(text@, ERROR_MARK@),
            Err(e) => occurs_in(text@, ERROR_MARK@) && e == Error::AudioStream(text),
        },
{
    let chars = chars_of(text.as_str());
    let mark = chars_of(ERROR_MARK);
    match find(&chars, &mark) {
        Some(_) => Err(Error::AudioStream(text)),
        None => Ok(()),
    }
}

/// Tells from the bytes that the downloader wrote about its problems
/// whether the download failed. The downloader may end as if all were well
/// and still have failed.
pub fn detect_error(bytes: &[u8]) -> (r: Result<(), Error>)
    ensures
        match r {
            Ok(_) => !occurs_in(utf8_lossy(bytes@), ERROR_MARK@),
            Err(e) => occurs_in(utf8_lossy(bytes@), ERROR_MARK@) && e.is_audio_stream(
                utf8_lossy(bytes@),
            ),
        },
{
    detect_error_text(lossy_text(bytes))
}

/// Whether a run of the downloader that ended well or not (`success`) and
/// wrote `text` about its problems has failed: it has where the mark of an
/// error stands in the text, however the run ended, and where the run did
/// not end well.
pub open spec fn download_failed(success: bool, text: Seq<char>) -> bool {
    occurs_in(text, ERROR_MARK@) || !success
}

/// Judges a download by how the run ended and by the text that it wrote
/// about its problems. Where the mark of an error stands in the text the
/// failure carries the text; where the run did not end well without a mark,
/// it shows the exit code and the text.
pub fn download_outcome_text(success: bool, code: Option<i32>, text: String) -> (r: Result<
    (),
    Error,
>)
    ensures
        r is Err <==> download_failed(success, text@),
        r matches Err(e) ==> if occurs_in(text@, ERROR_MARK@) {
            e == Error::AudioStream(text)
        } else {
            e.is_audio_stream(exit_text(code, text@))
        },
{
    let message = if success {
        None
    } else {
        Some(exit_message(code, text.as_str()))
    };
    match detect_error_text(text) {
        Err(e) => Err(e),
        Ok(_) => match message {
            Some(message) => Err(Error::AudioStream(message)),
            None => Ok(()),
        },
    }
}

/// Judges a download by how the run ended and by the bytes that it wrote
/// about its problems: it has failed where the mark of an error stands in
/// what it wrote, however it ended, and where it did not end well. Only a
/// download that this function passes is moved into place.
pub fn download_outcome(success: bool, code: Option<i32>, stderr: &[u8]) -> (r: Result<(), Error>)
    ensures
        r is Err <==> download_failed(success, utf8_lossy(stderr@)),
        r matches Err(e) ==> if occurs_in(utf8_lossy(stderr@), ERROR_MARK@) {
            e.is_audio_stream(utf8_lossy(stderr@))
        } else {
            e.is_audio_stream(exit_text(code, utf8_lossy(stderr@)))
        },
{
    download_outcome_text(success, code, lossy_text(stderr))
}

/// The address of a proxy with the name and password in it blotted out, to
/// be shown.
pub fn redact_proxy(proxy: &str) -> (shown: String)
    ensures
        shown@ == regex_replace(AUTH_PATTERN@, proxy@, REDACTED@),
{
    replace(AUTH_PATTERN, proxy, REDACTED)
}

/// The finished file as an extraction result.
pub fn serve_file<S, F>(file: F) -> (r: Extraction<S, F>)
    ensures
        r matches Extraction::File { file: served, mime_type } && served == file && mime_type@
            == AUDIO_MP4@,
{
    Extraction::File { file, mime_type: String::from_str(AUDIO_MP4) }
}

/// Downloads the audio of a video into the cache and serves it from there.
pub struct YtdlpFile {
    proxy: Option<String>,
}

impl YtdlpFile {
    /// The proxy that the downloader is sent through.
    pub closed spec fn proxy(&self) -> Option<Seq<char>> {
        self.proxy.deep_view()
    }

    /// An extractor that sends the downloader through `proxy`, where one
    /// is given.
    pub fn new(proxy: Option<String>) -> (r: Self)
        ensures
            r.proxy() == proxy.deep_view(),
    {
        YtdlpFile { proxy }
    }

    /// The arguments to run the downloader with so that it fills the
    /// temporary file of `audio_file`.
    pub fn download_command(&self, audio_file: &AudioFile) -> (arguments: Vec<String>)
        ensures
            arguments.deep_view() == download_arguments(
                audio_file.id@,
                audio_file.temp_path@,
                self.proxy(),
            ),
    {
        let mut arguments: Vec<String> = Vec::new();
        arguments.push(String::from_str("-f"));
        arguments.push(String::from_str(BEST_M4A));
        arguments.push(String::from_str("--no-progress"));
        arguments.push(String::from_str("-o"));
        arguments.push(audio_file.temp_path.clone());
        arguments.push(String::from_str("--no-mtime"));
        arguments.push(watch_url(audio_file.id.as_str()));
        assert(arguments.deep_view() == download_arguments(
            audio_file.id@,
            audio_file.temp_path@,
            None,
        ));
        match &self.proxy {
            Some(address) => {
                let ghost plain = arguments.deep_view();
                arguments.push(String::from_str("--proxy"));
                arguments.push(address.clone());
                assert(arguments.deep_view() == plain + seq!["--proxy"@, address@]);
            },
            None => {},
        }
        arguments
    }

    /// Ends an extraction. Where the file was had, it is served and the
    /// entry stays; where not, the failure is handed on and the entry is to
    /// be dropped from the cache (`true`), so that a later request starts
    /// afresh.
    pub fn conclude<S, F>(&self, outcome: Result<F, Error>) -> (r: (
        Result<Extraction<S, F>, Error>,
        bool,
    ))
        ensures
            match outcome {
                Ok(file) => r.0 matches Ok(Extraction::File { file: served, mime_type }) && served
                    == file && mime_type@ == AUDIO_MP4@ && !r.1,
                Err(e) => r.0 == Err::<Extraction<S, F>, Error>(e) && r.1,
            },
    {
        match outcome {
            Ok(file) => (Ok(serve_file(file)), false),
            Err(e) => (Err(e), true),
        }
    }
}

} // verus!
