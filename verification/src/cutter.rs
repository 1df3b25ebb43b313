//! Planning a lossless cut: the engine argument vector that extracts a
//! time range by stream copy. The duration handed to the engine is exactly
//! the requested `end - start`, so a conforming engine preserves it as the
//! output duration; there is no re-encoding fallback for cutting.

use vstd::prelude::*;
use crate::text::{dec_digits, digit_char, digit_str, u64_to_dec};
use crate::path::join_of;
use crate::namer::{candidate_of, nth_candidate};

verus! {

/// Why a cut was not performed.
#[derive(Debug)]
pub enum CutError {
    /// The requested range is empty or reversed: the end does not lie
    /// after the start.
    InvalidRange,
    /// The engine exited with a failure; the diagnostic it printed.
    Engine(String),
}

/// The description a cut failure carries.
pub open spec fn cut_message_of(e: CutError) -> Seq<char> {
    match e {
        CutError::InvalidRange => "segment end time must lie after its start time"@,
        CutError::Engine(detail) => detail@,
    }
}

impl CutError {
    /// A human-readable description.
    pub fn message(&self) -> (r: String)
        ensures
            r@ == cut_message_of(*self),
    {
        match self {
            CutError::InvalidRange => String::from_str(
                "segment end time must lie after its start time",
            ),
            CutError::Engine(detail) => detail.clone(),
        }
    }
}

/// Three zero-padded digits for a value below 1000.
pub open spec fn padded3(r: nat) -> Seq<char> {
    seq![
        digit_char((r / 100) as int),
        digit_char(((r / 10) % 10) as int),
        digit_char((r % 10) as int),
    ]
}

/// A millisecond count rendered as decimal seconds with three fraction
/// digits, the form the engine accepts for time arguments.
pub open spec fn seconds_of_ms(ms: nat) -> Seq<char> {
    dec_digits(ms / 1000) + seq!['.'] + padded3(ms % 1000)
}

/// Renders `ms` milliseconds as a seconds string.
pub fn ms_to_seconds_str(ms: u64) -> (r: String)
    ensures
        r@ == seconds_of_ms(ms as nat),
{
    proof {
        reveal_strlit(".");
    }
    let mut s = u64_to_dec(ms / 1000);
    let rest = ms % 1000;
    s.append(".");
    s.append(digit_str(rest / 100));
    s.append(digit_str((rest / 10) % 10));
    s.append(digit_str(rest % 10));
    proof {
        assert((ms % 1000) % 10 == ms % 10) by (nonlinear_arith);
        assert(s@ =~= seconds_of_ms(ms as nat));
    }
    s
}

/// The engine argument vector for a stream-copy cut: input, start offset,
/// duration, copy of both streams, timestamps forced non-negative,
/// overwrite allowed, output path.
pub open spec fn cut_args_of(
    input: Seq<char>,
    start_ms: nat,
    end_ms: nat,
    out_path: Seq<char>,
) -> Seq<Seq<char>> {
    seq![
        "-i"@,
        input,
        "-ss"@,
        seconds_of_ms(start_ms),
        "-t"@,
        seconds_of_ms((end_ms - start_ms) as nat),
        "-c:v"@,
        "copy"@,
        "-c:a"@,
        "copy"@,
        "-avoid_negative_ts"@,
        "make_zero"@,
        "-y"@,
        out_path,
    ]
}

/// A planned cut: what to run and where the result will land.
pub struct CutPlan {
    /// Arguments for the engine process.
    pub args: Vec<String>,
    /// The file the engine will write.
    pub output_path: String,
    /// The requested output duration, in milliseconds.
    pub duration_ms: u64,
}

/// Plans the lossless extraction of `[start_ms, end_ms)` from the input
/// into `output_dir/output_name.mp4`. Returns `Ok` exactly when the range
/// is non-empty; the planned duration argument is exactly `end - start`,
/// which a conforming engine preserves as the output duration.
pub fn cut_plan(
    input_path: &str,
    start_ms: u64,
    end_ms: u64,
    output_dir: &str,
    output_name: &str,
) -> (r: Result<CutPlan, CutError>)
    ensures
        r is Ok <==> end_ms > start_ms,
        r matches Ok(p) ==> {
            &&& p.duration_ms == end_ms - start_ms
            &&& p.output_path@ == join_of(output_dir@, candidate_of(output_name@, 0))
            &&& p.args.deep_view() == cut_args_of(
                input_path@,
                start_ms as nat,
                end_ms as nat,
                p.output_path@,
            )
        },
        r matches Err(e) ==> e is InvalidRange,
{
    if end_ms <= start_ms {
        return Err(CutError::InvalidRange);
    }
    let duration_ms = end_ms - start_ms;
    let name = nth_candidate(output_name, 0);
    let output_path = crate::path::join_path(output_dir, name.as_str());
    let mut args: Vec<String> = Vec::new();
    args.push(String::from_str("-i"));
    args.push(String::from_str(input_path));
    args.push(String::from_str("-ss"));
    args.push(ms_to_seconds_str(start_ms));
    args.push(String::from_str("-t"));
    args.push(ms_to_seconds_str(duration_ms));
    args.push(String::from_str("-c:v"));
    args.push(String::from_str("copy"));
    args.push(String::from_str("-c:a"));
    args.push(String::from_str("copy"));
    args.push(String::from_str("-avoid_negative_ts"));
    args.push(String::from_str("make_zero"));
    args.push(String::from_str("-y"));
    args.push(output_path.clone());
    assert(args.deep_view() =~= cut_args_of(
        input_path@,
        start_ms as nat,
        end_ms as nat,
        output_path@,
    ));
    Ok(CutPlan { args, output_path, duration_ms })
}

} // verus!
