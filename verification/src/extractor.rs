//! The ways of finding a playable audio source for a video.

use crate::text::{push_signed, same_text, signed_decimal};
use vstd::prelude::*;
use vstd::string::StringExecFns;

pub mod piped;
pub mod rustube;
pub mod ytdlp;
pub mod ytdlp_file;
pub mod ytdlp_proxy;
pub mod ytdlp_stream;

pub use piped::Piped;
pub use rustube::Rustube;
pub use ytdlp::Ytdlp;
pub use ytdlp_file::YtdlpFile;
pub use ytdlp_proxy::YtdlpProxy;
pub use ytdlp_stream::YtdlpStream;

verus! {

/// What an extractor found.
pub enum Extraction<S, F> {
    /// A remote URL, to be fetched again with these headers added.
    Proxy { url: String, headers: Vec<(String, String)> },
    /// Bytes that are still coming in, with their declared type and, where
    /// it is known, their total size.
    Stream { stream: S, filesize: Option<u64>, mime_type: String },
    /// A file that has been downloaded in full.
    File { file: F, mime_type: String },
}

impl<S, F> Extraction<S, F> {
    /// Whether this is the remote address `url`, to be fetched with
    /// `headers`.
    pub open spec fn is_proxy(self, url: Seq<char>, headers: Seq<(Seq<char>, Seq<char>)>) -> bool {
        match self {
            Extraction::Proxy { url: found, headers: sent } => found@ == url && sent.deep_view()
                == headers,
            _ => false,
        }
    }
}

/// The command-line downloader.
pub const DOWNLOADER: &'static str = "yt-dlp";

/// The type of the audio that the downloader delivers.
pub const AUDIO_MP4: &'static str = "audio/mp4";

/// The format that the downloader is asked for: the best audio in an MPEG-4
/// container.
pub const BEST_M4A: &'static str = "ba[ext=m4a]";

/// The address of the page of the video `video_id`.
pub open spec fn watch_address(video_id: Seq<char>) -> Seq<char> {
    "https://youtube.com/watch?v="@ + video_id
}

/// The address of the page of the video `video_id`.
pub fn watch_url(video_id: &str) -> (url: String)
    ensures
        url@ == watch_address(video_id@),
{
    let mut url = String::from_str("https://youtube.com/watch?v=");
    url.append(video_id);
    url
}

/// How an exit code is shown.
pub open spec fn shown_code(code: Option<i32>) -> Seq<char> {
    match code {
        Some(n) => "Some("@ + signed_decimal(n as int) + ")"@,
        None => "None"@,
    }
}

/// The text of the failure of a run of the downloader that ended with
/// `code` and wrote `stderr` about its problems.
pub open spec fn exit_text(code: Option<i32>, stderr: Seq<char>) -> Seq<char> {
    "yt-dlp exited with code ("@ + shown_code(code) + "): "@ + stderr
}

/// Writes the text of the failure of a run of the downloader that ended
/// with `code` and wrote `stderr` about its problems.
pub fn exit_message(code: Option<i32>, stderr: &str) -> (message: String)
    ensures
        message@ == exit_text(code, stderr@),
{
    let mut message = String::from_str("yt-dlp exited with code (");
    match code {
        Some(n) => {
            message.append("Some(");
            push_signed(&mut message, n as i64);
            message.append(")");
        },
        None => {
            message.append("None");
        },
    }
    assert(message@ == "yt-dlp exited with code ("@ + shown_code(code));
    message.append("): ");
    message.append(stderr);
    message
}

/// The extractors, by name.
#[derive(Clone, Copy, Debug, PartialEq, Eq, Structural)]
pub enum ExtractorKind {
    /// Runs the command-line downloader.
    LocalTool,
    /// Resolves the audio URL with the embedded routine.
    Embedded,
    /// Asks the mirror API.
    ApiMirror,
    /// Lets the command-line downloader print the audio URL.
    LocalUrl,
}

/// The extractor that a request names with `extractor=...`, `None` for any
/// other value.
pub open spec fn named_extractor(name: Seq<char>) -> Option<ExtractorKind> {
    if name == "piped"@ {
        Some(ExtractorKind::ApiMirror)
    } else if name == "embedded"@ {
        Some(ExtractorKind::Embedded)
    } else if name == "local-url"@ {
        Some(ExtractorKind::LocalUrl)
    } else {
        None
    }
}

/// The extractors that take part in the race when the request names none,
/// in the order in which their results are preferred.
pub open spec fn preferred_extractors() -> Seq<ExtractorKind> {
    seq![ExtractorKind::LocalTool, ExtractorKind::Embedded, ExtractorKind::ApiMirror]
}

/// The extractors to run for a request, in the order in which their results
/// are preferred.
pub open spec fn chosen_extractors(choice: Option<Seq<char>>) -> Seq<ExtractorKind> {
    match choice {
        Some(name) => match named_extractor(name) {
            Some(kind) => seq![kind],
            None => preferred_extractors(),
        },
        None => preferred_extractors(),
    }
}

/// Picks the extractors to run: the one that the request names, or, where
/// it names none that is known, the preferred ones with the local tool
/// first. A request without a known name is thus not served by the local
/// tool alone: all preferred extractors are raced, and the local tool is
/// the one whose success is preferred to the others'.
pub fn extractor_plan(choice: Option<&str>) -> (plan: Vec<ExtractorKind>)
    ensures
        plan@ == chosen_extractors(choice.deep_view()),
        plan.len() > 0,
{
    let mut plan: Vec<ExtractorKind> = Vec::new();
    match choice {
        Some(name) => {
            if same_text(name, "piped") {
                plan.push(ExtractorKind::ApiMirror);
                return plan;
            } else if same_text(name, "embedded") {
                plan.push(ExtractorKind::Embedded);
                return plan;
            } else if same_text(name, "local-url") {
                plan.push(ExtractorKind::LocalUrl);
                return plan;
            }
        },
        None => {},
    }
    plan.push(ExtractorKind::LocalTool);
    plan.push(ExtractorKind::Embedded);
    plan.push(ExtractorKind::ApiMirror);
    plan
}

} // verus!
