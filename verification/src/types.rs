//! Data carried through the pipeline: segment requests, probed metadata,
//! compression settings, per-segment results, and progress events. Times
//! are integer milliseconds; frame rates are exact rationals.

use vstd::prelude::*;

verus! {

/// The character-sequence view of an optional string.
pub open spec fn opt_str_view(o: Option<String>) -> Option<Seq<char>> {
    match o {
        Some(s) => Some(s@),
        None => None,
    }
}

/// One requested cut: a time range of the source, an optional intro clip
/// to prepend, and the desired output base name.
pub struct VideoSegment {
    /// Start of the range, in milliseconds.
    pub start_ms: u64,
    /// End of the range, in milliseconds; meaningful only when above
    /// `start_ms`.
    pub end_ms: u64,
    /// Path of an intro clip to concatenate in front of the cut, if any.
    pub intro_path: Option<String>,
    /// Base name (without extension) for the output file.
    pub output_name: String,
}

/// A read-only snapshot of a source file at probe time.
pub struct VideoMetadata {
    /// Container-level duration, in milliseconds.
    pub duration_ms: u64,
    /// Frame width in pixels.
    pub width: u32,
    /// Frame height in pixels.
    pub height: u32,
    /// Frame-rate numerator of the `num/den` rational.
    pub fps_num: u64,
    /// Frame-rate denominator of the `num/den` rational.
    pub fps_den: u64,
    /// Codec identifier of the video stream.
    pub codec: String,
}

/// A complete re-encoding profile; every compression invocation takes one.
pub struct CompressionSettings {
    quality: u32,
    preset: String,
    codec: String,
}

impl CompressionSettings {
    /// Quality from 0 (best) to 51; used directly as the constant rate
    /// factor for CRF-capable codecs and to pick a bitrate band otherwise.
    pub closed spec fn spec_quality(&self) -> u32 {
        self.quality
    }

    /// The encoder speed/quality preset name.
    pub closed spec fn spec_preset(&self) -> Seq<char> {
        self.preset@
    }

    /// The target codec identifier.
    pub closed spec fn spec_codec(&self) -> Seq<char> {
        self.codec@
    }

    pub fn new(quality: u32, preset: String, codec: String) -> (r: CompressionSettings)
        ensures
            r.spec_quality() == quality,
            r.spec_preset() == preset@,
            r.spec_codec() == codec@,
    {
        CompressionSettings { quality, preset, codec }
    }

    pub fn quality(&self) -> (r: u32)
        ensures
            r == self.spec_quality(),
    {
        self.quality
    }

    pub fn preset(&self) -> (r: &str)
        ensures
            r@ == self.spec_preset(),
    {
        self.preset.as_str()
    }

    pub fn codec(&self) -> (r: &str)
        ensures
            r@ == self.spec_codec(),
    {
        self.codec.as_str()
    }

    /// An independent copy.
    pub fn duplicate(&self) -> (r: CompressionSettings)
        ensures
            r.spec_quality() == self.spec_quality(),
            r.spec_preset() == self.spec_preset(),
            r.spec_codec() == self.spec_codec(),
    {
        CompressionSettings {
            quality: self.quality,
            preset: self.preset.clone(),
            codec: self.codec.clone(),
        }
    }
}

/// The outcome recorded for one segment of a batch: exactly one per
/// processed request, failure or not.
pub struct ProcessingResult {
    /// Whether every requested stage of this segment succeeded.
    pub success: bool,
    /// The produced file, or the last still-valid intermediate on a
    /// failure past the cut stage.
    pub output_path: Option<String>,
    /// A diagnostic message when `success` is false.
    pub error_message: Option<String>,
}

/// The stage a progress event reports on.
#[derive(PartialEq, Eq, Structural)]
pub enum SegmentStatus {
    Cutting,
    AddingIntro,
    Completed,
    Failed,
}

/// The event label of a stage, as the progress protocol names it.
pub open spec fn status_label_of(s: SegmentStatus) -> Seq<char> {
    match s {
        SegmentStatus::Cutting => "cutting"@,
        SegmentStatus::AddingIntro => "adding intro"@,
        SegmentStatus::Completed => "completed"@,
        SegmentStatus::Failed => "failed"@,
    }
}

impl SegmentStatus {
    /// The event label the surrounding application emits for this status.
    pub fn label(&self) -> (r: &'static str)
        ensures
            r@ == status_label_of(*self),
    {
        match self {
            SegmentStatus::Cutting => "cutting",
            SegmentStatus::AddingIntro => "adding intro",
            SegmentStatus::Completed => "completed",
            SegmentStatus::Failed => "failed",
        }
    }
}

/// One progress notification, pushed to an external event sink after each
/// stage boundary; delivery is fire-and-forget.
pub struct ProgressEvent {
    /// Index of the segment the event concerns.
    pub index: usize,
    /// Number of segments in the batch.
    pub total: usize,
    /// The stage being reported.
    pub status: SegmentStatus,
    /// Percentage from 0 to 100.
    pub progress: u32,
    /// Estimated remaining time in milliseconds, when one is computed.
    pub estimated_ms: Option<u64>,
}

} // verus!
