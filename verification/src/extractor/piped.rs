//! Extraction through the mirror API.

use crate::error::Error;
use crate::extractor::Extraction;
use crate::piped::PipedInstance;
use vstd::prelude::*;

verus! {

/// One audio stream as the mirror API describes it.
pub struct AudioStream {
    pub url: String,
    pub mime_type: String,
}

/// Asks an instance of the mirror API for the audio of a video.
pub struct Piped<'a>(pub &'a PipedInstance);

impl<'a> Piped<'a> {
    /// The address to ask for the streams of the video `video_id`.
    pub fn request(&self, video_id: &str) -> (url: String)
        ensures
            url@ == self.0.api() + "/streams/"@ + video_id@,
    {
        self.0.stream_url(video_id)
    }

    /// Picks the audio source from the streams that the API listed, which
    /// puts the best one first. Fails with `Extraction` where it listed
    /// none.
    pub fn extract<S, F>(&self, audio_streams: Vec<AudioStream>) -> (r: Result<
        Extraction<S, F>,
        Error,
    >)
        ensures
            match r {
                Ok(found) => audio_streams.len() > 0 && found.is_proxy(
                    audio_streams[0].url@,
                    Seq::empty(),
                ),
                Err(e) => audio_streams.len() == 0 && e is Extraction,
            },
    {
        if audio_streams.len() == 0 {
            return Err(Error::Extraction);
        }
        let url = audio_streams[0].url.clone();
        let headers: Vec<(String, String)> = Vec::new();
        assert(headers.deep_view() == Seq::<(Seq<char>, Seq<char>)>::empty());
        Ok(Extraction::Proxy { url, headers })
    }
}

} // verus!
