//! Extraction with the embedded routine that reads a video's page.

use crate::error::Error;
use crate::extractor::Extraction;
use vstd::prelude::*;
use vstd::string::StringExecFns;

verus! {

/// One stream of a video as its page describes it, with the address that
/// the signature has been worked into.
pub struct StreamInfo {
    pub url: String,
    pub includes_audio_track: bool,
    pub includes_video_track: bool,
    /// The bits per second, where the page says them.
    pub bitrate: Option<u64>,
}

/// The rank of a bitrate: one that the page does not say ranks below
/// every one that it says.
pub open spec fn rank(bitrate: Option<u64>) -> int {
    match bitrate {
        Some(bits) => bits as int,
        None => -1,
    }
}

fn ranks_no_higher(a: Option<u64>, b: Option<u64>) -> (r: bool)
    ensures
        r == (rank(a) <= rank(b)),
{
    match (a, b) {
        (None, _) => true,
        (Some(_), None) => false,
        (Some(x), Some(y)) => x <= y,
    }
}

/// What is added to the address so that the whole file is sent at once.
pub const WHOLE_RANGE: &'static str = "&range=0-999999999999";

/// Whether `stream` carries audio and nothing else.
pub open spec fn audio_only(stream: StreamInfo) -> bool {
    stream.includes_audio_track && !stream.includes_video_track
}

/// Whether `pick` is the best audio of `streams`: an audio-only stream of
/// the highest bitrate, the last of them where several share it.
pub open spec fn best_audio(streams: Seq<StreamInfo>, pick: int) -> bool {
    &&& 0 <= pick < streams.len()
    &&& audio_only(streams[pick])
    &&& forall|j: int|
        0 <= j < streams.len() && audio_only(#[trigger] streams[j]) ==> rank(streams[j].bitrate)
            <= rank(streams[pick].bitrate)
    &&& forall|j: int|
        pick < j < streams.len() && audio_only(#[trigger] streams[j]) ==> rank(streams[j].bitrate)
            < rank(streams[pick].bitrate)
}

/// Resolves the audio of a video from its page.
pub struct Rustube;

impl Rustube {
    /// Picks the audio source from the streams of the video `video_id`:
    /// the best audio-only one, asked for in full. Fails with `AudioStream`
    /// where no stream is audio-only.
    pub fn extract<S, F>(&self, video_id: &str, streams: &Vec<StreamInfo>) -> (r: Result<
        Extraction<S, F>,
        Error,
    >)
        ensures
            match r {
                Ok(found) => exists|pick: int|
                    best_audio(streams@, pick) && found.is_proxy(
                        (#[trigger] streams[pick]).url@ + WHOLE_RANGE@,
                        Seq::empty(),
                    ),
                Err(e) => e.is_audio_stream(video_id@) && forall|j: int|
                    0 <= j < streams.len() ==> !audio_only(streams[j]),
            },
    {
        let mut best: Option<usize> = None;
        let mut i: usize = 0;
        while i < streams.len()
            invariant
                i <= streams.len(),
                match best {
                    Some(pick) => pick < i && best_audio(streams@.take(i as int), pick as int),
                    None => forall|j: int| 0 <= j < i ==> !audio_only(streams[j]),
                },
            decreases streams.len() - i,
        {
            let ghost seen = streams@.take(i as int);
            let ghost next = streams@.take(i + 1);
            assert(forall|j: int| 0 <= j < i ==> next[j] == seen[j]);
            let stream = &streams[i];
            if stream.includes_audio_track && !stream.includes_video_track {
                match best {
                    Some(pick) => {
                        if ranks_no_higher(streams[pick].bitrate, stream.bitrate) {
                            best = Some(i);
                        }
                    },
                    None => {
                        best = Some(i);
                    },
                }
            }
            i = i + 1;
        }
        assert(streams@.take(streams.len() as int) == streams@);
        match best {
            Some(pick) => {
                let mut url = streams[pick].url.clone();
                url.append(WHOLE_RANGE);
                let headers: Vec<(String, String)> = Vec::new();
                assert(headers.deep_view() == Seq::<(Seq<char>, Seq<char>)>::empty());
                Ok(Extraction::Proxy { url, headers })
            },
            None => Err(Error::AudioStream(String::from_str(video_id))),
        }
    }
}

} // verus!
