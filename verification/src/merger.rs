//! Planning and driving the concatenation of an intro clip with a main
//! clip: a two-tier fallback state machine. A lossless stream-copy pass
//! through a filter graph is attempted first; when the engine rejects it,
//! exactly one re-encode pass follows at the requested (or a fixed
//! fallback) quality. When both fail, the reported error derives from the
//! re-encode attempt. Every terminal transition asks the caller to remove
//! the progress file, so the temporary artifact is cleaned up on success
//! and failure alike; this design writes no concatenation list file, the
//! filter graph joins the inputs directly.

use vstd::prelude::*;
use crate::text::dec_digits;
use crate::path::{file_stem, file_stem_of, join_of, join_path};
use crate::namer::{candidate_of, least_free, mp4_suffix, next_free_candidate};
use crate::types::{opt_str_view, CompressionSettings};

verus! {

/// Why a merge failed: both engine passes exited with a failure; the
/// diagnostic derives from the re-encode attempt.
#[derive(Debug)]
pub struct MergeError {
    pub detail: String,
}

/// The description a merge failure carries.
pub open spec fn merge_message_of(e: MergeError) -> Seq<char> {
    e.detail@
}

impl MergeError {
    /// A human-readable description.
    pub fn message(&self) -> (r: String)
        ensures
            r@ == merge_message_of(*self),
    {
        self.detail.clone()
    }
}

/// Relies on `uuid::Uuid::new_v4` rendered through its `Display` impl:
/// a fresh random identifier in hyphenated form, 36 characters long.
/// The value is random, so nothing more is promised of it.
#[verifier::external_body]
fn uuid_string() -> (r: String)
    ensures
        r@.len() == 36,
{
    uuid::Uuid::new_v4().to_string()
}

/// The filter-graph expression concatenating the two labeled input
/// streams.
pub open spec fn concat_filter() -> Seq<char> {
    "[0:v:0][0:a:0][1:v:0][1:a:0] concat=n=2:v=1:a=1 [v][a]"@
}

/// The progress-reporting arguments: present exactly when a progress file
/// was designated.
pub open spec fn progress_args_of(progress: Option<Seq<char>>) -> Seq<Seq<char>> {
    match progress {
        Some(f) => seq!["-progress"@, f],
        None => seq![],
    }
}

/// The engine argument vector for the lossless first pass: both inputs
/// through the concat filter graph, video stream copied, audio re-encoded
/// for container compatibility.
pub open spec fn merge_copy_args_of(
    intro: Seq<char>,
    video: Seq<char>,
    progress: Option<Seq<char>>,
    out_path: Seq<char>,
) -> Seq<Seq<char>> {
    seq![
        "-i"@,
        intro,
        "-i"@,
        video,
        "-filter_complex"@,
        concat_filter(),
        "-map"@,
        "[v]"@,
        "-map"@,
        "[a]"@,
        "-c:v"@,
        "copy"@,
        "-c:a"@,
        "aac"@,
        "-b:a"@,
        "192k"@,
    ] + progress_args_of(progress) + seq!["-y"@, out_path]
}

/// The engine argument vector for the re-encode fallback pass.
pub open spec fn merge_reencode_args_of(
    intro: Seq<char>,
    video: Seq<char>,
    codec: Seq<char>,
    preset: Seq<char>,
    quality: u32,
    progress: Option<Seq<char>>,
    out_path: Seq<char>,
) -> Seq<Seq<char>> {
    seq![
        "-i"@,
        intro,
        "-i"@,
        video,
        "-filter_complex"@,
        concat_filter(),
        "-map"@,
        "[v]"@,
        "-map"@,
        "[a]"@,
        "-c:v"@,
        codec,
        "-preset"@,
        preset,
        "-crf"@,
        dec_digits(quality as nat),
    ] + progress_args_of(progress) + seq!["-y"@, out_path]
}

/// The fallback re-encode quality when the caller supplies no settings.
pub open spec fn fallback_quality() -> u32 {
    28
}

/// The base output name for merging: both input stems joined.
pub open spec fn merge_base_of(intro: Seq<char>, video: Seq<char>) -> Seq<char> {
    file_stem_of(intro) + seq!['_'] + file_stem_of(video)
}

/// The collision-free-by-token output name for the synchronous merge.
pub open spec fn unique_merge_name_of(
    intro: Seq<char>,
    video: Seq<char>,
    token: Seq<char>,
) -> Seq<char> {
    "merged_"@ + file_stem_of(intro) + seq!['_'] + file_stem_of(video) + seq!['_'] + token
        + mp4_suffix()
}

/// The name of the designated progress file for one merge run.
pub open spec fn progress_file_name_of(token: Seq<char>) -> Seq<char> {
    "ffmpeg_progress_"@ + token + ".txt"@
}

/// Builds the token-based output name of a synchronous merge.
pub fn unique_merge_name(intro_path: &str, video_path: &str, token: &str) -> (r: String)
    ensures
        r@ == unique_merge_name_of(intro_path@, video_path@, token@),
{
    proof {
        reveal_strlit("merged_");
        reveal_strlit("_");
        reveal_strlit(".mp4");
    }
    let mut s = String::from_str("merged_");
    let istem = file_stem(intro_path);
    let vstem = file_stem(video_path);
    s.append(istem.as_str());
    s.append("_");
    s.append(vstem.as_str());
    s.append("_");
    s.append(token);
    s.append(".mp4");
    assert(s@ =~= unique_merge_name_of(intro_path@, video_path@, token@));
    s
}

/// Builds the progress-file name for the token of one merge run.
pub fn progress_file_name(token: &str) -> (r: String)
    ensures
        r@ == progress_file_name_of(token@),
{
    proof {
        reveal_strlit("ffmpeg_progress_");
        reveal_strlit(".txt");
    }
    let mut s = String::from_str("ffmpeg_progress_");
    s.append(token);
    s.append(".txt");
    assert(s@ =~= progress_file_name_of(token@));
    s
}

/// The phase a merge run is in.
#[derive(Clone, Copy)]
pub enum MergePhase {
    /// The lossless stream-copy pass is running.
    Copying,
    /// The stream-copy pass failed; the re-encode pass is running.
    Reencoding,
    /// A pass succeeded; the output file is in place.
    Done,
    /// Both passes failed.
    Failed,
}

/// Whether a phase ends the run.
pub open spec fn is_terminal(p: MergePhase) -> bool {
    p is Done || p is Failed
}

/// The phase after one engine exit: success ends the run, a copy failure
/// buys exactly one re-encode attempt, a re-encode failure ends it.
pub open spec fn step_phase(p: MergePhase, ok: bool) -> MergePhase {
    match p {
        MergePhase::Copying => if ok {
            MergePhase::Done
        } else {
            MergePhase::Reencoding
        },
        MergePhase::Reencoding => if ok {
            MergePhase::Done
        } else {
            MergePhase::Failed
        },
        _ => p,
    }
}

/// What the caller must do after one engine exit.
pub enum MergeAction {
    /// Run the engine once more, with the re-encode arguments.
    RunFallback,
    /// The run is over: remove the progress file, then read the outcome
    /// off the job.
    Cleanup,
}

/// The action one engine exit asks for: the fallback pass after a copy
/// failure, cleanup on every terminal transition.
pub open spec fn step_action(p: MergePhase, ok: bool) -> MergeAction {
    if p is Copying && !ok {
        MergeAction::RunFallback
    } else {
        MergeAction::Cleanup
    }
}

/// The diagnostic after one engine exit: a failing re-encode pass sets it,
/// every other transition keeps the previous one.
pub open spec fn step_error(
    p: MergePhase,
    ok: bool,
    detail: Seq<char>,
    prev: Option<Seq<char>>,
) -> Option<Seq<char>> {
    if p is Reencoding && !ok {
        Some(detail)
    } else {
        prev
    }
}

/// The codec of the re-encode pass: the caller's, or the fixed fallback.
pub open spec fn reencode_codec_of(s: Option<CompressionSettings>) -> Seq<char> {
    match s {
        Some(st) => st.spec_codec(),
        None => "libx264"@,
    }
}

/// The preset of the re-encode pass: the caller's, or the fixed fallback.
pub open spec fn reencode_preset_of(s: Option<CompressionSettings>) -> Seq<char> {
    match s {
        Some(st) => st.spec_preset(),
        None => "fast"@,
    }
}

/// The quality of the re-encode pass: the caller's, or the fixed fallback.
pub open spec fn reencode_quality_of(s: Option<CompressionSettings>) -> u32 {
    match s {
        Some(st) => st.spec_quality(),
        None => fallback_quality(),
    }
}

/// One merge run: the planned argument vectors, the designated output and
/// progress paths, and the phase the run is in.
pub struct MergeJob {
    /// Arguments of the lossless first pass.
    pub copy_args: Vec<String>,
    /// Arguments of the re-encode fallback pass.
    pub reencode_args: Vec<String>,
    /// The file the engine writes.
    pub output_path: String,
    /// The designated progress file, when the run reports progress.
    pub progress_path: Option<String>,
    /// Where the run stands.
    pub phase: MergePhase,
    /// The diagnostic of the failing re-encode pass, once there is one.
    pub error: Option<String>,
    /// Whether a terminal transition has asked for cleanup.
    pub cleanup_emitted: bool,
}

impl MergeJob {
    /// A run that has ended was asked to clean up.
    pub open spec fn wf(&self) -> bool {
        is_terminal(self.phase) ==> self.cleanup_emitted
    }

    /// The failure of a run that ended with both passes rejected: the
    /// error carries the re-encode attempt's diagnostic.
    pub fn failure(&self) -> (r: MergeError)
        requires
            self.phase is Failed,
            self.error is Some,
        ensures
            merge_message_of(r) == self.error->Some_0@,
    {
        MergeError { detail: self.error.as_ref().unwrap().clone() }
    }

    /// Feeds one engine exit into the run and returns what to do next.
    pub fn on_engine_exit(&mut self, ok: bool, detail: String) -> (a: MergeAction)
        requires
            !is_terminal(old(self).phase),
            old(self).wf(),
        ensures
            final(self).phase == step_phase(old(self).phase, ok),
            a == step_action(old(self).phase, ok),
            opt_str_view(final(self).error) == step_error(
                old(self).phase,
                ok,
                detail@,
                opt_str_view(old(self).error),
            ),
            final(self).copy_args == old(self).copy_args,
            final(self).reencode_args == old(self).reencode_args,
            final(self).output_path == old(self).output_path,
            final(self).progress_path == old(self).progress_path,
            final(self).cleanup_emitted == (old(self).cleanup_emitted || a is Cleanup),
            final(self).wf(),
    {
        match self.phase {
            MergePhase::Copying => {
                if ok {
                    self.phase = MergePhase::Done;
                    self.cleanup_emitted = true;
                    MergeAction::Cleanup
                } else {
                    self.phase = MergePhase::Reencoding;
                    MergeAction::RunFallback
                }
            },
            MergePhase::Reencoding => {
                if ok {
                    self.phase = MergePhase::Done;
                } else {
                    self.phase = MergePhase::Failed;
                    self.error = Some(detail);
                }
                self.cleanup_emitted = true;
                MergeAction::Cleanup
            },
            _ => {
                // unreachable: the run has ended
                MergeAction::Cleanup
            },
        }
    }
}

/// The settings a caller handed in, as a specification value.
pub open spec fn opt_settings_view(o: Option<&CompressionSettings>) -> Option<CompressionSettings> {
    match o {
        Some(s) => Some(*s),
        None => None,
    }
}

/// Builds both argument vectors of one merge run.
fn build_merge_args(
    intro_path: &str,
    video_path: &str,
    settings: Option<&CompressionSettings>,
    progress_path: Option<&String>,
    output_path: &str,
) -> (r: (Vec<String>, Vec<String>))
    ensures
        r.0.deep_view() == merge_copy_args_of(
            intro_path@,
            video_path@,
            match progress_path {
                Some(p) => Some(p@),
                None => None,
            },
            output_path@,
        ),
        r.1.deep_view() == merge_reencode_args_of(
            intro_path@,
            video_path@,
            reencode_codec_of(opt_settings_view(settings)),
            reencode_preset_of(opt_settings_view(settings)),
            reencode_quality_of(opt_settings_view(settings)),
            match progress_path {
                Some(p) => Some(p@),
                None => None,
            },
            output_path@,
        ),
{
    let mut copy_args: Vec<String> = Vec::new();
    copy_args.push(String::from_str("-i"));
    copy_args.push(String::from_str(intro_path));
    copy_args.push(String::from_str("-i"));
    copy_args.push(String::from_str(video_path));
    copy_args.push(String::from_str("-filter_complex"));
    copy_args.push(String::from_str("[0:v:0][0:a:0][1:v:0][1:a:0] concat=n=2:v=1:a=1 [v][a]"));
    copy_args.push(String::from_str("-map"));
    copy_args.push(String::from_str("[v]"));
    copy_args.push(String::from_str("-map"));
    copy_args.push(String::from_str("[a]"));
    copy_args.push(String::from_str("-c:v"));
    copy_args.push(String::from_str("copy"));
    copy_args.push(String::from_str("-c:a"));
    copy_args.push(String::from_str("aac"));
    copy_args.push(String::from_str("-b:a"));
    copy_args.push(String::from_str("192k"));

    let mut reencode_args: Vec<String> = Vec::new();
    reencode_args.push(String::from_str("-i"));
    reencode_args.push(String::from_str(intro_path));
    reencode_args.push(String::from_str("-i"));
    reencode_args.push(String::from_str(video_path));
    reencode_args.push(String::from_str("-filter_complex"));
    reencode_args.push(String::from_str("[0:v:0][0:a:0][1:v:0][1:a:0] concat=n=2:v=1:a=1 [v][a]"));
    reencode_args.push(String::from_str("-map"));
    reencode_args.push(String::from_str("[v]"));
    reencode_args.push(String::from_str("-map"));
    reencode_args.push(String::from_str("[a]"));
    reencode_args.push(String::from_str("-c:v"));
    match settings {
        Some(s) => reencode_args.push(String::from_str(s.codec())),
        None => reencode_args.push(String::from_str("libx264")),
    }
    reencode_args.push(String::from_str("-preset"));
    match settings {
        Some(s) => reencode_args.push(String::from_str(s.preset())),
        None => reencode_args.push(String::from_str("fast")),
    }
    reencode_args.push(String::from_str("-crf"));
    match settings {
        Some(s) => reencode_args.push(crate::text::u64_to_dec(s.quality() as u64)),
        None => reencode_args.push(crate::text::u64_to_dec(28)),
    }

    match progress_path {
        Some(p) => {
            copy_args.push(String::from_str("-progress"));
            copy_args.push(p.clone());
            reencode_args.push(String::from_str("-progress"));
            reencode_args.push(p.clone());
        },
        None => {},
    }
    copy_args.push(String::from_str("-y"));
    copy_args.push(String::from_str(output_path));
    reencode_args.push(String::from_str("-y"));
    reencode_args.push(String::from_str(output_path));
    proof {
        let pview = match progress_path {
            Some(p) => Some(p@),
            None => None,
        };
        assert(copy_args.deep_view() =~= merge_copy_args_of(
            intro_path@,
            video_path@,
            pview,
            output_path@,
        ));
        assert(reencode_args.deep_view() =~= merge_reencode_args_of(
            intro_path@,
            video_path@,
            reencode_codec_of(opt_settings_view(settings)),
            reencode_preset_of(opt_settings_view(settings)),
            reencode_quality_of(opt_settings_view(settings)),
            pview,
            output_path@,
        ));
    }
    (copy_args, reencode_args)
}

/// Plans a synchronous merge: the output name carries a fresh uniqueness
/// token instead of polling existing names, and no progress file is
/// designated.
pub fn merge_plan(
    intro_path: &str,
    video_path: &str,
    output_dir: &str,
    settings: Option<&CompressionSettings>,
) -> (job: MergeJob)
    ensures
        exists|token: Seq<char>|
            token.len() == 36 && job.output_path@ == join_of(
                output_dir@,
                #[trigger] unique_merge_name_of(intro_path@, video_path@, token),
            ),
        job.progress_path is None,
        job.copy_args.deep_view() == merge_copy_args_of(
            intro_path@,
            video_path@,
            None,
            job.output_path@,
        ),
        job.reencode_args.deep_view() == merge_reencode_args_of(
            intro_path@,
            video_path@,
            reencode_codec_of(opt_settings_view(settings)),
            reencode_preset_of(opt_settings_view(settings)),
            reencode_quality_of(opt_settings_view(settings)),
            None,
            job.output_path@,
        ),
        job.phase is Copying,
        job.error is None,
        !job.cleanup_emitted,
        job.wf(),
{
    let token = uuid_string();
    let name = unique_merge_name(intro_path, video_path, token.as_str());
    let output_path = join_path(output_dir, name.as_str());
    let (copy_args, reencode_args) = build_merge_args(
        intro_path,
        video_path,
        settings,
        None,
        output_path.as_str(),
    );
    MergeJob {
        copy_args,
        reencode_args,
        output_path,
        progress_path: None,
        phase: MergePhase::Copying,
        error: None,
        cleanup_emitted: false,
    }
}

/// Plans a progress-reporting merge: the output lands under the first free
/// `<intro stem>_<video stem>` candidate name among the names the output
/// directory already holds, and the engine is told to stream progress
/// key-value lines into a token-named file under `scratch_dir`.
pub fn merge_plan_with_progress(
    intro_path: &str,
    video_path: &str,
    output_dir: &str,
    settings: Option<&CompressionSettings>,
    existing: &Vec<String>,
    scratch_dir: &str,
) -> (job: MergeJob)
    ensures
        exists|n: nat|
            #[trigger] least_free(
                merge_base_of(intro_path@, video_path@),
                existing.deep_view(),
                n,
            ) && job.output_path@ == join_of(
                output_dir@,
                candidate_of(merge_base_of(intro_path@, video_path@), n),
            ),
        exists|token: Seq<char>|
            token.len() == 36 && opt_str_view(job.progress_path) == Some(
                join_of(scratch_dir@, #[trigger] progress_file_name_of(token)),
            ),
        job.copy_args.deep_view() == merge_copy_args_of(
            intro_path@,
            video_path@,
            opt_str_view(job.progress_path),
            job.output_path@,
        ),
        job.reencode_args.deep_view() == merge_reencode_args_of(
            intro_path@,
            video_path@,
            reencode_codec_of(opt_settings_view(settings)),
            reencode_preset_of(opt_settings_view(settings)),
            reencode_quality_of(opt_settings_view(settings)),
            opt_str_view(job.progress_path),
            job.output_path@,
        ),
        job.phase is Copying,
        job.error is None,
        !job.cleanup_emitted,
        job.wf(),
{
    proof {
        reveal_strlit("_");
    }
    let token = uuid_string();
    let pname = progress_file_name(token.as_str());
    let progress_path = join_path(scratch_dir, pname.as_str());

    let mut base = file_stem(intro_path);
    base.append("_");
    let vstem = file_stem(video_path);
    base.append(vstem.as_str());
    assert(base@ =~= merge_base_of(intro_path@, video_path@));
    let name = next_free_candidate(base.as_str(), existing);
    let output_path = join_path(output_dir, name.as_str());

    let (copy_args, reencode_args) = build_merge_args(
        intro_path,
        video_path,
        settings,
        Some(&progress_path),
        output_path.as_str(),
    );
    MergeJob {
        copy_args,
        reencode_args,
        output_path,
        progress_path: Some(progress_path),
        phase: MergePhase::Copying,
        error: None,
        cleanup_emitted: false,
    }
}

/// Fallback law: a failing copy pass is followed by a re-encode attempt;
/// nothing else asks for one, and the re-encode pass always ends the run,
/// so the attempt happens exactly once. When the fallback fails too, the
/// run fails and the reported diagnostic is the fallback's own, whatever
/// the first pass reported.
pub proof fn lemma_merge_fallback_once(ok: bool, detail: Seq<char>, prev: Option<Seq<char>>)
    ensures
        step_phase(MergePhase::Copying, false) is Reencoding,
        step_action(MergePhase::Copying, false) is RunFallback,
        step_action(MergePhase::Copying, true) is Cleanup,
        !(step_action(MergePhase::Reencoding, ok) is RunFallback),
        is_terminal(step_phase(MergePhase::Reencoding, ok)),
        step_phase(MergePhase::Reencoding, false) is Failed,
        step_error(MergePhase::Reencoding, false, detail, prev) == Some(detail),
{
}

/// Cleanup law: a merge run ends after at most two engine exits, and the
/// action of its last transition is always the progress file's removal,
/// on success and failure alike.
pub proof fn lemma_merge_run_cleans_up(ok1: bool, ok2: bool)
    ensures
        ({
            let p1 = step_phase(MergePhase::Copying, ok1);
            if is_terminal(p1) {
                step_action(MergePhase::Copying, ok1) is Cleanup
            } else {
                is_terminal(step_phase(p1, ok2)) && step_action(p1, ok2) is Cleanup
            }
        }),
{
}

} // verus!
