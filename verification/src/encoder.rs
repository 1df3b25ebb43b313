//! Planning a re-encode to a target quality. Rate control is chosen by
//! codec family: the quality-factor codecs take the quality value directly
//! as a constant rate factor, every other codec falls back to one of four
//! bitrate bands keyed by the quality value. Audio is always re-encoded to
//! a fixed codec and bitrate.

use vstd::prelude::*;
use crate::text::{dec_digits, str_eq, u64_to_dec};
use crate::path::{file_stem, file_stem_of, join_of};
use crate::namer::{candidate_of, least_free, next_output_name, resolved_dir_of};
use crate::types::CompressionSettings;

verus! {

/// Why a compression run failed: the engine exited with a failure,
/// carrying the diagnostic it printed.
#[derive(Debug)]
pub struct CompressError {
    pub detail: String,
}

/// The description a compression failure carries.
pub open spec fn compress_message_of(e: CompressError) -> Seq<char> {
    e.detail@
}

impl CompressError {
    /// A human-readable description.
    pub fn message(&self) -> (r: String)
        ensures
            r@ == compress_message_of(*self),
    {
        self.detail.clone()
    }
}

/// The codecs that take a constant rate factor directly.
pub open spec fn is_crf_codec(codec: Seq<char>) -> bool {
    codec == "libx264"@ || codec == "libx265"@
}

/// The bitrate band for a quality value, for codecs without CRF rate
/// control: finer quality bands map to higher bitrates.
pub open spec fn bitrate_band(quality: u32) -> Seq<char> {
    if quality <= 10 {
        "8M"@
    } else if quality <= 20 {
        "5M"@
    } else if quality <= 30 {
        "2M"@
    } else {
        "1M"@
    }
}

/// The rate-control arguments for a codec and quality: `-crf <quality>`
/// for CRF-capable codecs, `-b:v <band>` otherwise.
pub open spec fn rate_control_of(codec: Seq<char>, quality: u32) -> Seq<Seq<char>> {
    if is_crf_codec(codec) {
        seq!["-crf"@, dec_digits(quality as nat)]
    } else {
        seq!["-b:v"@, bitrate_band(quality)]
    }
}

/// The full engine argument vector for a compression run.
pub open spec fn compress_args_of(
    input: Seq<char>,
    codec: Seq<char>,
    preset: Seq<char>,
    quality: u32,
    out_path: Seq<char>,
) -> Seq<Seq<char>> {
    seq!["-i"@, input, "-c:v"@, codec, "-preset"@, preset] + rate_control_of(codec, quality)
        + seq!["-c:a"@, "aac"@, "-b:a"@, "128k"@, "-y"@, out_path]
}

/// The base output name for compressing `input`: its stem with a
/// `_compressed` marker.
pub open spec fn compressed_base_of(input: Seq<char>) -> Seq<char> {
    file_stem_of(input) + "_compressed"@
}

/// A planned compression run: what to run and where the result will land.
pub struct CompressPlan {
    /// Arguments for the engine process.
    pub args: Vec<String>,
    /// The file the engine will write.
    pub output_path: String,
}

/// Plans the re-encode of `input_path` into the directory `output_dir`
/// stands for, under the first free `<stem>_compressed` candidate name,
/// given the file names that directory already holds.
pub fn compress_plan(
    input_path: &str,
    output_dir: &str,
    settings: &CompressionSettings,
    existing: &Vec<String>,
) -> (r: CompressPlan)
    ensures
        exists|n: nat|
            #[trigger] least_free(compressed_base_of(input_path@), existing.deep_view(), n)
                && r.output_path@ == join_of(
                resolved_dir_of(output_dir@),
                candidate_of(compressed_base_of(input_path@), n),
            ),
        r.args.deep_view() == compress_args_of(
            input_path@,
            settings.spec_codec(),
            settings.spec_preset(),
            settings.spec_quality(),
            r.output_path@,
        ),
{
    proof {
        reveal_strlit("_compressed");
    }
    let mut base = file_stem(input_path);
    base.append("_compressed");
    assert(base@ == compressed_base_of(input_path@));
    let output_path = next_output_name(base.as_str(), output_dir, existing);

    let mut args: Vec<String> = Vec::new();
    args.push(String::from_str("-i"));
    args.push(String::from_str(input_path));
    args.push(String::from_str("-c:v"));
    args.push(String::from_str(settings.codec()));
    args.push(String::from_str("-preset"));
    args.push(String::from_str(settings.preset()));
    if str_eq(settings.codec(), "libx264") || str_eq(settings.codec(), "libx265") {
        args.push(String::from_str("-crf"));
        args.push(u64_to_dec(settings.quality() as u64));
    } else {
        args.push(String::from_str("-b:v"));
        let q = settings.quality();
        if q <= 10 {
            args.push(String::from_str("8M"));
        } else if q <= 20 {
            args.push(String::from_str("5M"));
        } else if q <= 30 {
            args.push(String::from_str("2M"));
        } else {
            args.push(String::from_str("1M"));
        }
    }
    args.push(String::from_str("-c:a"));
    args.push(String::from_str("aac"));
    args.push(String::from_str("-b:a"));
    args.push(String::from_str("128k"));
    args.push(String::from_str("-y"));
    args.push(output_path.clone());
    assert(args.deep_view() =~= compress_args_of(
        input_path@,
        settings.spec_codec(),
        settings.spec_preset(),
        settings.spec_quality(),
        output_path@,
    ));
    CompressPlan { args, output_path }
}

} // verus!
