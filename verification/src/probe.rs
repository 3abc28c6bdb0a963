//! Video detection: the shape of a container probe's report and the
//! decision that maps a report to a playable container type. Running the
//! external probe tool and decoding its JSON output belong to the
//! surrounding application; the decision on the decoded report is made
//! and verified here.

use vstd::prelude::*;

use crate::assoc::StrAssoc;
use crate::strutil::{contains_seq, contains_sub};

verus! {

/// Internal failures of the upload-processing pipeline.
#[derive(PartialEq, Eq, Structural, Clone, Copy, Debug)]
pub enum ProcessingError {
    DigestFailed,
    DetectionFailed,
    ThumbnailFailed,
}

/// A container probe's report: the detected format, if any, and the
/// streams found.
pub struct FFProbeResult {
    pub format: Option<FFProbeFormat>,
    pub streams: Option<Vec<FFProbeStream>>,
}

/// The format block of a probe report. The numeric-looking fields arrive
/// as decimal strings and are carried as such.
pub struct FFProbeFormat {
    pub filename: String,
    pub nb_streams: i32,
    pub format_name: String,
    pub start_time: String,
    pub duration: String,
    pub size: String,
    pub bit_rate: String,
    pub probe_score: i32,
    pub tags: StrAssoc<String>,
}

/// One stream of a probe report.
pub struct FFProbeStream {
    pub codec_name: String,
    pub codec_type: String,
}

/// The container type a probe decision reports: a MIME name and the
/// extension the file is stored under.
pub struct FFProbeMeta {
    pub mime: &'static str,
    pub ext: &'static str,
}

/// How many streams of the report are video streams.
pub open spec fn video_count(streams: Seq<FFProbeStream>) -> nat
    decreases streams.len(),
{
    if streams.len() == 0 {
        0
    } else {
        (if streams[0].codec_type@ == "video"@ {
            1nat
        } else {
            0nat
        }) + video_count(streams.skip(1))
    }
}

/// The decision on a probe report: nothing detectable without a format
/// or streams, an error without a video stream, and otherwise the
/// container named by the format, if it is one the store can play.
pub open spec fn spec_probe_decision(probe: FFProbeResult) -> Result<
    Option<(Seq<char>, Seq<char>)>,
    ProcessingError,
> {
    match probe.format {
        None => Ok(None),
        Some(format) => match probe.streams {
            None => Ok(None),
            Some(streams) => if video_count(streams@) == 0 {
                Err(ProcessingError::DetectionFailed)
            } else if contains_seq(format.format_name@, "matroska"@) {
                Ok(Some(("video/x-matroska"@, "mkv"@)))
            } else if contains_seq(format.format_name@, "mp4"@) {
                Ok(Some(("video/mp4"@, "mp4"@)))
            } else {
                Ok(None)
            },
        },
    }
}

/// Decides what a probe report says about the file: does it hold at
/// least one video stream, and which supported container format was
/// detected? The container is mapped to the MIME name and extension the
/// rest of the application files it under.
pub fn ffmpeg_decision(probe: FFProbeResult) -> (r: Result<Option<FFProbeMeta>, ProcessingError>)
    ensures
        match r {
            Ok(Some(meta)) => spec_probe_decision(probe) == Ok::<_, ProcessingError>(
                Some((meta.mime@, meta.ext@)),
            ),
            Ok(None) => spec_probe_decision(probe) == Ok::<Option<(Seq<char>, Seq<char>)>,
                ProcessingError,
            >(None),
            Err(e) => spec_probe_decision(probe) == Err::<Option<(Seq<char>, Seq<char>)>, _>(e),
        },
{
    let format = match probe.format {
        Some(format) => format,
        None => {
            return Ok(None);
        },
    };
    let streams = match probe.streams {
        Some(streams) => streams,
        None => {
            return Ok(None);
        },
    };
    let n: usize = streams.len();
    let mut videos: usize = 0;
    let mut i: usize = 0;
    proof {
        assert(streams@.skip(0) =~= streams@);
    }
    while i < n
        invariant
            i <= n,
            n == streams@.len(),
            videos <= i,
            video_count(streams@) == videos + video_count(streams@.skip(i as int)),
        decreases n - i,
    {
        proof {
            assert(streams@.skip(i as int)[0] == streams@[i as int]);
            assert(streams@.skip(i as int).skip(1) =~= streams@.skip(i + 1));
        }
        if crate::strutil::str_eq(streams[i].codec_type.as_str(), "video") {
            videos += 1;
        }
        i += 1;
    }
    proof {
        assert(streams@.skip(n as int) =~= Seq::<FFProbeStream>::empty());
    }
    if videos == 0 {
        return Err(ProcessingError::DetectionFailed);
    }
    if contains_sub(format.format_name.as_str(), "matroska") {
        Ok(Some(FFProbeMeta { mime: "video/x-matroska", ext: "mkv" }))
    } else if contains_sub(format.format_name.as_str(), "mp4") {
        Ok(Some(FFProbeMeta { mime: "video/mp4", ext: "mp4" }))
    } else {
        Ok(None)
    }
}

} // verus!
