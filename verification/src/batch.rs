//! The batch orchestrator: processes an ordered sequence of segment
//! requests strictly in order, one at a time. For each request it plans a
//! cut, then optionally a merge with the request's intro clip, then
//! optionally a compression pass, and records exactly one result per
//! request — a failure at any stage is recorded and the batch moves on,
//! never aborting. The surrounding application performs the engine runs
//! the orchestrator asks for and feeds their outcomes back; notifications
//! are described at each stage boundary for the application's progress
//! sink.

use vstd::prelude::*;
use crate::cutter::{cut_args_of, cut_message_of, cut_plan, CutError};
use crate::encoder::{compress_message_of, CompressError};
use crate::merger::{merge_message_of, MergeError};
use crate::namer::candidate_of;
use crate::path::join_of;
use crate::types::{opt_str_view, CompressionSettings, ProcessingResult, ProgressEvent,
    SegmentStatus, VideoSegment};

verus! {

/// What the orchestrator asks the surrounding application to do.
pub enum BatchAction {
    /// Push this notification to the progress sink, if one is attached.
    Notify(ProgressEvent),
    /// Run the engine with these cut arguments.
    RunCut(Vec<String>),
    /// Run a merge of this intro in front of this clip (a merge run of
    /// its own, planned separately).
    RunMerge { intro_path: String, video_path: String },
    /// Run a compression of this file (planned separately).
    RunCompress { input_path: String },
    /// Remove this intermediate file.
    RemoveFile(String),
}

/// Where the orchestrator stands.
#[derive(Clone, Copy)]
pub enum BatchStage {
    /// Ready to begin the next segment.
    Ready,
    /// The current segment's cut run is out.
    AwaitCut,
    /// The current segment's merge run is out.
    AwaitMerge,
    /// The current segment's compression run is out.
    AwaitCompress,
    /// Every request has its result.
    Finished,
}

/// A progress notification value.
pub open spec fn notice(
    index: usize,
    total: usize,
    status: SegmentStatus,
    progress: u32,
    estimated_ms: Option<u64>,
) -> ProgressEvent {
    ProgressEvent { index, total, status, progress, estimated_ms }
}

/// Whether `r` records the failure of one segment, with the given partial
/// output and message.
pub open spec fn failure_result(
    r: ProcessingResult,
    path: Option<Seq<char>>,
    msg: Seq<char>,
) -> bool {
    &&& !r.success
    &&& opt_str_view(r.output_path) == path
    &&& opt_str_view(r.error_message) == Some(msg)
}

/// Whether `r` records the success of one segment with this output file.
pub open spec fn success_result(r: ProcessingResult, path: Seq<char>) -> bool {
    &&& r.success
    &&& opt_str_view(r.output_path) == Some(path)
    &&& r.error_message is None
}

/// The linear remaining-time extrapolation: the just-finished segment's
/// wall-clock time multiplied by the count of segments still to come.
pub fn estimate_remaining_ms(elapsed_ms: u64, index: usize, total: usize) -> (r: Option<u64>)
    requires
        index < total,
    ensures
        match r {
            Some(v) => v == elapsed_ms * (total - index - 1),
            None => elapsed_ms * (total - index - 1) > u64::MAX,
        },
{
    elapsed_ms.checked_mul((total - index - 1) as u64)
}

/// Whether `e` is the completing notification of one segment: full
/// progress, with the linear remaining-time extrapolation when it fits.
pub open spec fn completed_notice(e: ProgressEvent, index: usize, total: usize, elapsed_ms: u64) -> bool {
    &&& e.index == index
    &&& e.total == total
    &&& e.status is Completed
    &&& e.progress == 100
    &&& match e.estimated_ms {
        Some(v) => v == elapsed_ms * (total - index - 1),
        None => elapsed_ms * (total - index - 1) > u64::MAX,
    }
}

/// A string made of a fixed prefix and a diagnostic detail.
fn prefixed_message(prefix: &str, detail: &str) -> (r: String)
    ensures
        r@ == prefix@ + detail@,
{
    let mut s = String::from_str(prefix);
    s.append(detail);
    s
}

/// One batch run over an ordered sequence of segment requests.
pub struct Batch {
    /// The source file every segment is cut from.
    pub input_path: String,
    /// The directory outputs are written to.
    pub output_dir: String,
    /// The ordered requests.
    pub requests: Vec<VideoSegment>,
    /// The profile segments are compressed with after cutting and
    /// merging, when compression was requested.
    pub compression: Option<CompressionSettings>,
    /// Whether a superseded intermediate file is removed once the next
    /// stage's output replaces it.
    pub delete_intermediates: bool,
    /// The request being processed.
    pub index: usize,
    /// Where the orchestrator stands.
    pub stage: BatchStage,
    /// The current segment's latest produced file.
    pub current_path: Option<String>,
    /// One recorded outcome per finished request.
    pub results: Vec<ProcessingResult>,
}

impl Batch {
    /// The orchestrator's invariant: one result per finished request, an
    /// in-range cursor, `Finished` exactly at the end, and a produced file
    /// at hand while a follow-up stage is out.
    pub open spec fn wf(&self) -> bool {
        &&& self.results.len() == self.index
        &&& self.index <= self.requests.len()
        &&& (self.stage is Finished <==> self.index == self.requests.len())
        &&& ((self.stage is AwaitCut || self.stage is AwaitMerge || self.stage is AwaitCompress)
            ==> self.current_path is Some)
    }

    /// The parts of a batch that no step changes.
    pub open spec fn same_run(&self, o: &Batch) -> bool {
        &&& self.input_path == o.input_path
        &&& self.output_dir == o.output_dir
        &&& self.requests == o.requests
        &&& self.compression == o.compression
        &&& self.delete_intermediates == o.delete_intermediates
    }

    /// The earlier results a step must not touch.
    pub open spec fn keeps_results_of(&self, o: &Batch) -> bool {
        self.results@.len() >= o.results@.len() && self.results@.subrange(
            0,
            o.results@.len() as int,
        ) == o.results@
    }

    /// A fresh batch over `requests`; finished at once when they are
    /// empty.
    pub fn new(
        input_path: String,
        requests: Vec<VideoSegment>,
        output_dir: String,
        compression: Option<CompressionSettings>,
        delete_intermediates: bool,
    ) -> (b: Batch)
        ensures
            b.wf(),
            b.index == 0,
            b.results@.len() == 0,
            b.input_path == input_path,
            b.output_dir == output_dir,
            b.requests == requests,
            b.compression == compression,
            b.delete_intermediates == delete_intermediates,
            b.stage is Finished <==> requests@.len() == 0,
            requests@.len() > 0 ==> b.stage is Ready,
    {
        let stage = if requests.len() == 0 {
            BatchStage::Finished
        } else {
            BatchStage::Ready
        };
        Batch {
            input_path,
            output_dir,
            requests,
            compression,
            delete_intermediates,
            index: 0,
            stage: stage,
            current_path: None,
            results: Vec::new(),
        }
    }

    /// Records one result for the current segment and moves to the next
    /// request.
    fn complete_segment(&mut self, result: ProcessingResult)
        requires
            old(self).wf(),
            !(old(self).stage is Finished),
        ensures
            final(self).wf(),
            final(self).same_run(old(self)),
            final(self).index == old(self).index + 1,
            final(self).results@ == old(self).results@.push(result),
            final(self).keeps_results_of(old(self)),
            final(self).current_path is None,
            !(final(self).stage is AwaitCut),
            !(final(self).stage is AwaitMerge),
            !(final(self).stage is AwaitCompress),
    {
        self.results.push(result);
        self.index = self.index + 1;
        self.current_path = None;
        self.stage = if self.index == self.requests.len() {
            BatchStage::Finished
        } else {
            BatchStage::Ready
        };
        proof {
            assert(final(self).results@.subrange(0, old(self).results@.len() as int) =~= old(
                self,
            ).results@);
        }
    }

    /// Begins the next segment: plans its cut and asks for the engine
    /// run, or records the failure at once when the requested range is
    /// empty — the rest of the batch goes on either way.
    pub fn begin_segment(&mut self) -> (r: Vec<BatchAction>)
        requires
            old(self).wf(),
            old(self).stage is Ready,
        ensures
            final(self).wf(),
            final(self).same_run(old(self)),
            final(self).keeps_results_of(old(self)),
            ({
                let seg = old(self).requests@[old(self).index as int];
                if seg.end_ms > seg.start_ms {
                    &&& final(self).stage is AwaitCut
                    &&& final(self).index == old(self).index
                    &&& final(self).results == old(self).results
                    &&& opt_str_view(final(self).current_path) == Some(
                        join_of(old(self).output_dir@, candidate_of(seg.output_name@, 0)),
                    )
                    &&& r@.len() == 2
                    &&& r@[0] == BatchAction::Notify(
                        notice(
                            old(self).index,
                            old(self).requests@.len() as usize,
                            SegmentStatus::Cutting,
                            0,
                            None,
                        ),
                    )
                    &&& (r@[1] matches BatchAction::RunCut(args) && args.deep_view()
                        == cut_args_of(
                        old(self).input_path@,
                        seg.start_ms as nat,
                        seg.end_ms as nat,
                        join_of(old(self).output_dir@, candidate_of(seg.output_name@, 0)),
                    ))
                } else {
                    &&& final(self).index == old(self).index + 1
                    &&& (final(self).stage is Ready || final(self).stage is Finished)
                    &&& final(self).current_path is None
                    &&& final(self).results@.len() == old(self).results@.len() + 1
                    &&& failure_result(
                        final(self).results@.last(),
                        None,
                        "Failed to cut segment: "@
                            + "segment end time must lie after its start time"@,
                    )
                    &&& r@.len() == 2
                    &&& r@[0] == BatchAction::Notify(
                        notice(
                            old(self).index,
                            old(self).requests@.len() as usize,
                            SegmentStatus::Cutting,
                            0,
                            None,
                        ),
                    )
                    &&& r@[1] == BatchAction::Notify(
                        notice(
                            old(self).index,
                            old(self).requests@.len() as usize,
                            SegmentStatus::Failed,
                            0,
                            None,
                        ),
                    )
                }
            }),
    {
        let total = self.requests.len();
        let index = self.index;
        let mut actions: Vec<BatchAction> = Vec::new();
        actions.push(
            BatchAction::Notify(
                ProgressEvent {
                    index,
                    total,
                    status: SegmentStatus::Cutting,
                    progress: 0,
                    estimated_ms: None,
                },
            ),
        );
        let plan = {
            let seg = &self.requests[index];
            cut_plan(
                self.input_path.as_str(),
                seg.start_ms,
                seg.end_ms,
                self.output_dir.as_str(),
                seg.output_name.as_str(),
            )
        };
        match plan {
            Ok(p) => {
                self.current_path = Some(p.output_path);
                self.stage = BatchStage::AwaitCut;
                actions.push(BatchAction::RunCut(p.args));
            },
            Err(e) => {
                let msg = prefixed_message("Failed to cut segment: ", e.message().as_str());
                proof {
                    reveal_strlit("segment end time must lie after its start time");
                }
                self.complete_segment(
                    ProcessingResult {
                        success: false,
                        output_path: None,
                        error_message: Some(msg),
                    },
                );
                actions.push(
                    BatchAction::Notify(
                        ProgressEvent {
                            index,
                            total,
                            status: SegmentStatus::Failed,
                            progress: 0,
                            estimated_ms: None,
                        },
                    ),
                );
            },
        }
        proof {
            assert(self.results@.subrange(0, old(self).results@.len() as int) =~= old(
                self,
            ).results@);
        }
        actions
    }

    /// Whether every request has its result.
    pub fn is_finished(&self) -> (r: bool)
        ensures
            r == self.stage is Finished,
    {
        match self.stage {
            BatchStage::Finished => true,
            _ => false,
        }
    }

    /// Feeds the cut run's outcome back. A failure is recorded with no
    /// output path and the batch moves on; on success the segment goes on
    /// to its merge, its compression, or completes.
    pub fn on_cut_done(&mut self, outcome: Result<(), CutError>, elapsed_ms: u64) -> (r: Vec<
        BatchAction,
    >)
        requires
            old(self).wf(),
            old(self).stage is AwaitCut,
        ensures
            final(self).wf(),
            final(self).same_run(old(self)),
            final(self).keeps_results_of(old(self)),
            ({
                let idx = old(self).index;
                let total = old(self).requests@.len() as usize;
                let seg = old(self).requests@[idx as int];
                let cur = old(self).current_path->Some_0@;
                match outcome {
                    Result::Ok(_) => {
                        &&& r@[0] == BatchAction::Notify(
                            notice(idx, total, SegmentStatus::Cutting, 50, None),
                        )
                        &&& if seg.intro_path is Some {
                            &&& final(self).stage is AwaitMerge
                            &&& final(self).index == idx
                            &&& final(self).results == old(self).results
                            &&& final(self).current_path == old(self).current_path
                            &&& r@.len() == 2
                            &&& (r@[1] matches BatchAction::RunMerge { intro_path, video_path }
                                && intro_path@ == seg.intro_path->Some_0@ && video_path@ == cur)
                        } else if old(self).compression is Some {
                            &&& final(self).stage is AwaitCompress
                            &&& final(self).index == idx
                            &&& final(self).results == old(self).results
                            &&& final(self).current_path == old(self).current_path
                            &&& r@.len() == 2
                            &&& (r@[1] matches BatchAction::RunCompress { input_path }
                                && input_path@ == cur)
                        } else {
                            &&& final(self).index == idx + 1
                            &&& (final(self).stage is Ready || final(self).stage is Finished)
                            &&& final(self).current_path is None
                            &&& final(self).results@.len() == old(self).results@.len() + 1
                            &&& success_result(final(self).results@.last(), cur)
                            &&& r@.len() == 2
                            &&& (r@[1] matches BatchAction::Notify(e) && completed_notice(
                                e,
                                idx,
                                total,
                                elapsed_ms,
                            ))
                        }
                    },
                    Result::Err(d) => {
                        &&& final(self).index == idx + 1
                        &&& (final(self).stage is Ready || final(self).stage is Finished)
                        &&& final(self).current_path is None
                        &&& final(self).results@.len() == old(self).results@.len() + 1
                        &&& failure_result(
                            final(self).results@.last(),
                            None,
                            "Failed to cut segment: "@ + cut_message_of(d),
                        )
                        &&& r@.len() == 1
                        &&& r@[0] == BatchAction::Notify(
                            notice(idx, total, SegmentStatus::Failed, 0, None),
                        )
                    },
                }
            }),
    {
        let total = self.requests.len();
        let index = self.index;
        let mut actions: Vec<BatchAction> = Vec::new();
        match outcome {
            Ok(_) => {
                actions.push(
                    BatchAction::Notify(
                        ProgressEvent {
                            index,
                            total,
                            status: SegmentStatus::Cutting,
                            progress: 50,
                            estimated_ms: None,
                        },
                    ),
                );
                let cur = self.current_path.as_ref().unwrap().clone();
                let intro = match &self.requests[index].intro_path {
                    Some(p) => Some(p.clone()),
                    None => None,
                };
                match intro {
                    Some(intro_path) => {
                        self.stage = BatchStage::AwaitMerge;
                        actions.push(BatchAction::RunMerge { intro_path, video_path: cur });
                    },
                    None => {
                        if self.compression.is_some() {
                            self.stage = BatchStage::AwaitCompress;
                            actions.push(BatchAction::RunCompress { input_path: cur });
                        } else {
                            let eta = estimate_remaining_ms(elapsed_ms, index, total);
                            self.complete_segment(
                                ProcessingResult {
                                    success: true,
                                    output_path: Some(cur),
                                    error_message: None,
                                },
                            );
                            actions.push(
                                BatchAction::Notify(
                                    ProgressEvent {
                                        index,
                                        total,
                                        status: SegmentStatus::Completed,
                                        progress: 100,
                                        estimated_ms: eta,
                                    },
                                ),
                            );
                        }
                    },
                }
            },
            Err(d) => {
                let msg = prefixed_message("Failed to cut segment: ", d.message().as_str());
                self.complete_segment(
                    ProcessingResult { success: false, output_path: None, error_message: Some(msg) },
                );
                actions.push(
                    BatchAction::Notify(
                        ProgressEvent {
                            index,
                            total,
                            status: SegmentStatus::Failed,
                            progress: 0,
                            estimated_ms: None,
                        },
                    ),
                );
            },
        }
        proof {
            assert(self.results@.subrange(0, old(self).results@.len() as int) =~= old(
                self,
            ).results@);
        }
        actions
    }

    /// Feeds the merge run's outcome back. A failure is recorded carrying
    /// the still-valid cut output as partial progress and the batch moves
    /// on — the cut is not retried; on success the superseded cut file is
    /// removed when intermediates are not kept, and the segment goes on to
    /// its compression or completes.
    pub fn on_merge_done(&mut self, outcome: Result<String, MergeError>, elapsed_ms: u64) -> (r:
        Vec<BatchAction>)
        requires
            old(self).wf(),
            old(self).stage is AwaitMerge,
        ensures
            final(self).wf(),
            final(self).same_run(old(self)),
            final(self).keeps_results_of(old(self)),
            ({
                let idx = old(self).index;
                let total = old(self).requests@.len() as usize;
                let cur = old(self).current_path->Some_0@;
                match outcome {
                    Result::Ok(merged) => {
                        let base: int = if old(self).delete_intermediates {
                            1
                        } else {
                            0
                        };
                        &&& (old(self).delete_intermediates ==> (r@[0]
                            matches BatchAction::RemoveFile(f) && f@ == cur))
                        &&& r@[base] == BatchAction::Notify(
                            notice(idx, total, SegmentStatus::AddingIntro, 100, None),
                        )
                        &&& if old(self).compression is Some {
                            &&& final(self).stage is AwaitCompress
                            &&& final(self).index == idx
                            &&& final(self).results == old(self).results
                            &&& opt_str_view(final(self).current_path) == Some(merged@)
                            &&& r@.len() == base + 2
                            &&& (r@[base + 1] matches BatchAction::RunCompress { input_path }
                                && input_path@ == merged@)
                        } else {
                            &&& final(self).index == idx + 1
                            &&& (final(self).stage is Ready || final(self).stage is Finished)
                            &&& final(self).current_path is None
                            &&& final(self).results@.len() == old(self).results@.len() + 1
                            &&& success_result(final(self).results@.last(), merged@)
                            &&& r@.len() == base + 2
                            &&& (r@[base + 1] matches BatchAction::Notify(e) && completed_notice(
                                e,
                                idx,
                                total,
                                elapsed_ms,
                            ))
                        }
                    },
                    Result::Err(d) => {
                        &&& final(self).index == idx + 1
                        &&& (final(self).stage is Ready || final(self).stage is Finished)
                        &&& final(self).current_path is None
                        &&& final(self).results@.len() == old(self).results@.len() + 1
                        &&& failure_result(
                            final(self).results@.last(),
                            Some(cur),
                            "Failed to add intro: "@ + merge_message_of(d),
                        )
                        &&& r@.len() == 1
                        &&& r@[0] == BatchAction::Notify(
                            notice(idx, total, SegmentStatus::Failed, 0, None),
                        )
                    },
                }
            }),
    {
        let total = self.requests.len();
        let index = self.index;
        let mut actions: Vec<BatchAction> = Vec::new();
        let cur = self.current_path.as_ref().unwrap().clone();
        match outcome {
            Ok(merged) => {
                if self.delete_intermediates {
                    actions.push(BatchAction::RemoveFile(cur));
                }
                actions.push(
                    BatchAction::Notify(
                        ProgressEvent {
                            index,
                            total,
                            status: SegmentStatus::AddingIntro,
                            progress: 100,
                            estimated_ms: None,
                        },
                    ),
                );
                if self.compression.is_some() {
                    self.stage = BatchStage::AwaitCompress;
                    self.current_path = Some(merged.clone());
                    actions.push(BatchAction::RunCompress { input_path: merged });
                } else {
                    let eta = estimate_remaining_ms(elapsed_ms, index, total);
                    self.complete_segment(
                        ProcessingResult {
                            success: true,
                            output_path: Some(merged),
                            error_message: None,
                        },
                    );
                    actions.push(
                        BatchAction::Notify(
                            ProgressEvent {
                                index,
                                total,
                                status: SegmentStatus::Completed,
                                progress: 100,
                                estimated_ms: eta,
                            },
                        ),
                    );
                }
            },
            Err(d) => {
                let msg = prefixed_message("Failed to add intro: ", d.message().as_str());
                self.complete_segment(
                    ProcessingResult {
                        success: false,
                        output_path: Some(cur),
                        error_message: Some(msg),
                    },
                );
                actions.push(
                    BatchAction::Notify(
                        ProgressEvent {
                            index,
                            total,
                            status: SegmentStatus::Failed,
                            progress: 0,
                            estimated_ms: None,
                        },
                    ),
                );
            },
        }
        proof {
            assert(self.results@.subrange(0, old(self).results@.len() as int) =~= old(
                self,
            ).results@);
        }
        actions
    }

    /// Feeds the compression run's outcome back. A failure is recorded
    /// carrying the pre-compression file as partial progress and the batch
    /// moves on; on success the pre-compression intermediate is removed
    /// when intermediates are not kept, and the segment completes.
    pub fn on_compress_done(
        &mut self,
        outcome: Result<String, CompressError>,
        elapsed_ms: u64,
    ) -> (r: Vec<BatchAction>)
        requires
            old(self).wf(),
            old(self).stage is AwaitCompress,
        ensures
            final(self).wf(),
            final(self).same_run(old(self)),
            final(self).keeps_results_of(old(self)),
            final(self).index == old(self).index + 1,
            final(self).stage is Ready || final(self).stage is Finished,
            final(self).current_path is None,
            final(self).results@.len() == old(self).results@.len() + 1,
            ({
                let idx = old(self).index;
                let total = old(self).requests@.len() as usize;
                let cur = old(self).current_path->Some_0@;
                match outcome {
                    Result::Ok(compressed) => {
                        let base: int = if old(self).delete_intermediates {
                            1
                        } else {
                            0
                        };
                        &&& success_result(final(self).results@.last(), compressed@)
                        &&& (old(self).delete_intermediates ==> (r@[0]
                            matches BatchAction::RemoveFile(f) && f@ == cur))
                        &&& r@.len() == base + 1
                        &&& (r@[base] matches BatchAction::Notify(e) && completed_notice(
                            e,
                            idx,
                            total,
                            elapsed_ms,
                        ))
                    },
                    Result::Err(d) => {
                        &&& failure_result(
                            final(self).results@.last(),
                            Some(cur),
                            "Failed to compress: "@ + compress_message_of(d),
                        )
                        &&& r@.len() == 1
                        &&& r@[0] == BatchAction::Notify(
                            notice(idx, total, SegmentStatus::Failed, 0, None),
                        )
                    },
                }
            }),
    {
        let total = self.requests.len();
        let index = self.index;
        let mut actions: Vec<BatchAction> = Vec::new();
        let cur = self.current_path.as_ref().unwrap().clone();
        match outcome {
            Ok(compressed) => {
                if self.delete_intermediates {
                    actions.push(BatchAction::RemoveFile(cur));
                }
                let eta = estimate_remaining_ms(elapsed_ms, index, total);
                self.complete_segment(
                    ProcessingResult {
                        success: true,
                        output_path: Some(compressed),
                        error_message: None,
                    },
                );
                actions.push(
                    BatchAction::Notify(
                        ProgressEvent {
                            index,
                            total,
                            status: SegmentStatus::Completed,
                            progress: 100,
                            estimated_ms: eta,
                        },
                    ),
                );
            },
            Err(d) => {
                let msg = prefixed_message("Failed to compress: ", d.message().as_str());
                self.complete_segment(
                    ProcessingResult {
                        success: false,
                        output_path: Some(cur),
                        error_message: Some(msg),
                    },
                );
                actions.push(
                    BatchAction::Notify(
                        ProgressEvent {
                            index,
                            total,
                            status: SegmentStatus::Failed,
                            progress: 0,
                            estimated_ms: None,
                        },
                    ),
                );
            },
        }
        proof {
            assert(self.results@.subrange(0, old(self).results@.len() as int) =~= old(
                self,
            ).results@);
        }
        actions
    }
}

/// Batch isolation: a finished batch holds exactly one result per request.
/// Every step preserves the orchestrator's invariant and extends the
/// recorded results without touching earlier ones, so one segment's
/// failure never aborts the batch nor disturbs another segment's result.
pub proof fn lemma_batch_one_result_each(b: &Batch)
    requires
        b.wf(),
        b.stage is Finished,
    ensures
        b.results.len() == b.requests.len(),
{
}

} // verus!
