//! The cut planner, the merge fallback machine, the progress monitor, and
//! the batch orchestrator.

use eddit_core::batch::{estimate_remaining_ms, Batch, BatchAction};
use eddit_core::cutter::{cut_plan, CutError};
use eddit_core::encoder::{compress_plan, CompressError};
use eddit_core::merger::{merge_plan, merge_plan_with_progress, MergeAction, MergeError,
    MergePhase};
use eddit_core::progress::{
    parse_progress_elapsed_us, progress_percent, total_duration_us, MonitorPoll, ProgressMonitor,
};
use eddit_core::types::{CompressionSettings, SegmentStatus, VideoSegment};

fn args_of(v: &Vec<String>) -> Vec<&str> {
    v.iter().map(|s| s.as_str()).collect()
}

#[test]
fn plans_a_cut() {
    let plan = cut_plan("/in/src.mp4", 1000, 4000, "/out", "seg").unwrap();
    assert_eq!(plan.duration_ms, 3000);
    assert_eq!(plan.output_path, "/out/seg.mp4");
    assert_eq!(
        args_of(&plan.args),
        vec![
            "-i",
            "/in/src.mp4",
            "-ss",
            "1.000",
            "-t",
            "3.000",
            "-c:v",
            "copy",
            "-c:a",
            "copy",
            "-avoid_negative_ts",
            "make_zero",
            "-y",
            "/out/seg.mp4",
        ]
    );
}

#[test]
fn rejects_an_empty_range() {
    let r = cut_plan("/in/src.mp4", 4000, 4000, "/out", "seg");
    assert!(matches!(r, Err(CutError::InvalidRange)));
    let r = cut_plan("/in/src.mp4", 5000, 4000, "/out", "seg");
    match r {
        Err(e) => assert_eq!(
            e.message(),
            "segment end time must lie after its start time"
        ),
        Ok(_) => panic!("a reversed range must be rejected"),
    }
}

#[test]
fn cut_duration_is_end_minus_start() {
    // the engine is handed exactly the requested length as `-t`
    let plan = cut_plan("/in/a.mp4", 250, 10500, "/out", "x").unwrap();
    assert_eq!(plan.duration_ms, 10250);
    assert_eq!(plan.args[5], "10.250");
}

#[test]
fn merge_falls_back_exactly_once() {
    let mut job = merge_plan("/clips/intro.mp4", "/clips/main.mp4", "/out", None);
    assert!(matches!(job.phase, MergePhase::Copying));
    assert!(job.progress_path.is_none());

    let a = job.on_engine_exit(false, String::from("copy failed"));
    assert!(matches!(a, MergeAction::RunFallback));
    assert!(matches!(job.phase, MergePhase::Reencoding));

    let a = job.on_engine_exit(false, String::from("reencode failed"));
    assert!(matches!(a, MergeAction::Cleanup));
    assert!(matches!(job.phase, MergePhase::Failed));
    // the reported diagnostic derives from the re-encode attempt
    assert_eq!(job.error.as_deref(), Some("reencode failed"));
    assert!(job.cleanup_emitted);
}

#[test]
fn merge_copy_success_cleans_up() {
    let mut job = merge_plan("/clips/intro.mp4", "/clips/main.mp4", "/out", None);
    let a = job.on_engine_exit(true, String::new());
    assert!(matches!(a, MergeAction::Cleanup));
    assert!(matches!(job.phase, MergePhase::Done));
    assert!(job.error.is_none());
    assert!(job.cleanup_emitted);
}

#[test]
fn merge_fallback_success_cleans_up() {
    let mut job = merge_plan("/clips/intro.mp4", "/clips/main.mp4", "/out", None);
    job.on_engine_exit(false, String::from("copy failed"));
    let a = job.on_engine_exit(true, String::new());
    assert!(matches!(a, MergeAction::Cleanup));
    assert!(matches!(job.phase, MergePhase::Done));
    assert!(job.cleanup_emitted);
}

#[test]
fn merge_names_carry_a_token() {
    let job = merge_plan("/clips/intro.mp4", "/clips/main.mp4", "/out", None);
    let name = job.output_path.strip_prefix("/out/merged_intro_main_").unwrap();
    assert!(name.ends_with(".mp4"));
    assert_eq!(name.len(), 36 + 4);
}

#[test]
fn merge_with_progress_plans_everything() {
    let existing = vec![String::from("intro_main.mp4")];
    let settings = CompressionSettings::new(20, String::from("slow"), String::from("libx265"));
    let job = merge_plan_with_progress(
        "/clips/intro.mp4",
        "/clips/main.mp4",
        "/out",
        Some(&settings),
        &existing,
        "/tmp/scratch",
    );
    assert_eq!(job.output_path, "/out/intro_main_1.mp4");
    let progress = job.progress_path.clone().unwrap();
    assert!(progress.starts_with("/tmp/scratch/ffmpeg_progress_"));
    assert!(progress.ends_with(".txt"));

    let copy = args_of(&job.copy_args);
    assert_eq!(copy[0..6], [
        "-i",
        "/clips/intro.mp4",
        "-i",
        "/clips/main.mp4",
        "-filter_complex",
        "[0:v:0][0:a:0][1:v:0][1:a:0] concat=n=2:v=1:a=1 [v][a]",
    ]);
    assert!(copy.contains(&"copy"));
    assert_eq!(copy[copy.len() - 4], "-progress");
    assert_eq!(copy[copy.len() - 3], progress.as_str());
    assert_eq!(copy[copy.len() - 1], "/out/intro_main_1.mp4");

    let re = args_of(&job.reencode_args);
    assert!(re.contains(&"libx265"));
    assert!(re.contains(&"slow"));
    assert!(re.contains(&"-crf"));
    assert!(re.contains(&"20"));
}

#[test]
fn merge_without_settings_uses_the_fixed_fallback() {
    let job = merge_plan("/a/i.mp4", "/a/v.mp4", "/out", None);
    let re = args_of(&job.reencode_args);
    assert!(re.contains(&"libx264"));
    assert!(re.contains(&"fast"));
    assert!(re.contains(&"28"));
}

#[test]
fn parses_progress_files() {
    let content = "frame=12\nout_time_ms=500000\nprogress=continue\nout_time_ms=900000\nprogress=continue\n";
    assert_eq!(parse_progress_elapsed_us(content), Some(900000));
    assert_eq!(parse_progress_elapsed_us("out_time_ms=42"), Some(42));
    assert_eq!(parse_progress_elapsed_us("frame=1\nspeed=2x\n"), None);
    assert_eq!(parse_progress_elapsed_us(""), None);
    // an unparseable latest value falls back to the last parseable one
    assert_eq!(
        parse_progress_elapsed_us("out_time_ms=100\nout_time_ms=N/A\n"),
        Some(100)
    );
}

#[test]
fn clamps_percentages() {
    assert_eq!(progress_percent(0, 1000), 0);
    assert_eq!(progress_percent(500, 1000), 50);
    assert_eq!(progress_percent(999, 1000), 99);
    assert_eq!(progress_percent(1000, 1000), 100);
    assert_eq!(progress_percent(2000, 1000), 100);
    assert_eq!(progress_percent(7, 0), 100);
}

#[test]
fn monitors_one_merge_run() {
    let total = total_duration_us(2000, 3000).unwrap();
    assert_eq!(total, 5_000_000);
    let mut monitor = ProgressMonitor::new(total);

    assert_eq!(monitor.poll(MonitorPoll::Absent), None);
    let p1 = monitor
        .poll(MonitorPoll::Content(String::from("out_time_ms=1000000\n")))
        .unwrap();
    assert_eq!(p1, 20);
    let p2 = monitor
        .poll(MonitorPoll::Content(String::from(
            "out_time_ms=1000000\nout_time_ms=4000000\n",
        )))
        .unwrap();
    assert_eq!(p2, 80);
    assert!(p1 <= p2);
    // the caller removed the file: one final full notification
    let last = monitor.poll(MonitorPoll::Gone).unwrap();
    assert_eq!(last, 100);
    assert!(monitor.done);
}

#[test]
fn monitor_gives_up_after_the_bounded_wait() {
    let mut monitor = ProgressMonitor::new(1_000_000);
    let mut last = None;
    while !monitor.done {
        last = monitor.poll(MonitorPoll::Absent);
    }
    // the wait is bounded, and the final emission is still the full 100
    assert_eq!(monitor.waits, eddit_core::progress::MONITOR_WAIT_BOUND);
    assert_eq!(last, Some(100));
}

#[test]
fn an_empty_batch_finishes_at_once() {
    let batch = Batch::new(
        String::from("/in/src.mp4"),
        Vec::new(),
        String::from("/out"),
        None,
        false,
    );
    assert!(batch.is_finished());
    assert!(batch.results.is_empty());
}

#[test]
fn compression_uses_crf_for_quality_factor_codecs() {
    let existing: Vec<String> = Vec::new();
    let settings = CompressionSettings::new(25, String::from("medium"), String::from("libx264"));
    let plan = compress_plan("/in/movie.mp4", "/out", &settings, &existing);
    let args = args_of(&plan.args);
    assert_eq!(plan.output_path, "/out/movie_compressed.mp4");
    let i = args.iter().position(|a| *a == "-crf").unwrap();
    assert_eq!(args[i + 1], "25");
    assert!(!args.contains(&"-b:v"));
    assert!(args.contains(&"aac"));
    assert!(args.contains(&"128k"));
}

#[test]
fn compression_banding_for_other_codecs() {
    let existing: Vec<String> = Vec::new();
    let settings = CompressionSettings::new(25, String::from("medium"), String::from("mpeg4"));
    let plan = compress_plan("/in/movie.mp4", "/out", &settings, &existing);
    let args = args_of(&plan.args);
    let i = args.iter().position(|a| *a == "-b:v").unwrap();
    assert_eq!(args[i + 1], "2M");
    assert!(!args.contains(&"-crf"));

    for (quality, band) in [(0, "8M"), (10, "8M"), (11, "5M"), (30, "2M"), (31, "1M"), (51, "1M")]
    {
        let settings =
            CompressionSettings::new(quality, String::from("medium"), String::from("mpeg4"));
        let plan = compress_plan("/in/movie.mp4", "/out", &settings, &existing);
        let args = args_of(&plan.args);
        let i = args.iter().position(|a| *a == "-b:v").unwrap();
        assert_eq!(args[i + 1], band, "quality {}", quality);
    }
}

#[test]
fn compression_output_names_avoid_collisions() {
    let existing = vec![
        String::from("movie_compressed.mp4"),
        String::from("movie_compressed_1.mp4"),
    ];
    let settings = CompressionSettings::new(25, String::from("medium"), String::from("libx264"));
    let plan = compress_plan("/in/movie.mp4", "/out", &settings, &existing);
    assert_eq!(plan.output_path, "/out/movie_compressed_2.mp4");
}

#[test]
fn estimates_remaining_time_linearly() {
    assert_eq!(estimate_remaining_ms(1000, 0, 3), Some(2000));
    assert_eq!(estimate_remaining_ms(1000, 2, 3), Some(0));
    assert_eq!(estimate_remaining_ms(u64::MAX, 0, 3), None);
}

fn segment(start_ms: u64, end_ms: u64, name: &str, intro: Option<&str>) -> VideoSegment {
    VideoSegment {
        start_ms,
        end_ms,
        intro_path: intro.map(String::from),
        output_name: String::from(name),
    }
}

#[test]
fn batch_isolates_a_failing_segment() {
    // three segments; the second one's range is invalid
    let requests = vec![
        segment(0, 1000, "a", None),
        segment(2000, 2000, "b", None),
        segment(3000, 5000, "c", None),
    ];
    let mut batch = Batch::new(
        String::from("/in/src.mp4"),
        requests,
        String::from("/out"),
        None,
        false,
    );

    // segment a: planned, engine succeeds
    let actions = batch.begin_segment();
    assert!(matches!(actions[0], BatchAction::Notify(_)));
    assert!(matches!(actions[1], BatchAction::RunCut(_)));
    let actions = batch.on_cut_done(Ok(()), 500);
    match &actions[1] {
        BatchAction::Notify(e) => {
            assert!(matches!(e.status, SegmentStatus::Completed));
            assert_eq!(e.progress, 100);
            assert_eq!(e.estimated_ms, Some(1000));
        }
        other => panic!("expected the completing notification, got {}", action_kind(other)),
    }

    // segment b: rejected at planning, batch moves on
    let actions = batch.begin_segment();
    assert_eq!(actions.len(), 2);
    assert!(!batch.is_finished());

    // segment c: planned, engine succeeds
    batch.begin_segment();
    batch.on_cut_done(Ok(()), 400);

    assert!(batch.is_finished());
    assert_eq!(batch.results.len(), 3);
    assert!(batch.results[0].success);
    assert_eq!(batch.results[0].output_path.as_deref(), Some("/out/a.mp4"));
    assert!(!batch.results[1].success);
    assert_eq!(
        batch.results[1].error_message.as_deref(),
        Some("Failed to cut segment: segment end time must lie after its start time")
    );
    assert!(batch.results[2].success);
    assert_eq!(batch.results[2].output_path.as_deref(), Some("/out/c.mp4"));
}

fn action_kind(a: &BatchAction) -> &'static str {
    match a {
        BatchAction::Notify(_) => "notify",
        BatchAction::RunCut(_) => "run cut",
        BatchAction::RunMerge { .. } => "run merge",
        BatchAction::RunCompress { .. } => "run compress",
        BatchAction::RemoveFile(_) => "remove file",
    }
}

#[test]
fn batch_runs_the_full_pipeline() {
    let requests = vec![segment(0, 1000, "a", Some("/clips/intro.mp4"))];
    let settings = CompressionSettings::new(25, String::from("medium"), String::from("libx264"));
    let mut batch = Batch::new(
        String::from("/in/src.mp4"),
        requests,
        String::from("/out"),
        Some(settings),
        true,
    );

    batch.begin_segment();
    let actions = batch.on_cut_done(Ok(()), 100);
    match &actions[1] {
        BatchAction::RunMerge { intro_path, video_path } => {
            assert_eq!(intro_path, "/clips/intro.mp4");
            assert_eq!(video_path, "/out/a.mp4");
        }
        other => panic!("expected a merge run, got {}", action_kind(other)),
    }

    let actions = batch.on_merge_done(Ok(String::from("/out/merged.mp4")), 300);
    assert!(matches!(&actions[0], BatchAction::RemoveFile(f) if f == "/out/a.mp4"));
    match &actions[2] {
        BatchAction::RunCompress { input_path } => assert_eq!(input_path, "/out/merged.mp4"),
        other => panic!("expected a compression run, got {}", action_kind(other)),
    }

    let actions = batch.on_compress_done(Ok(String::from("/out/a_final.mp4")), 700);
    assert!(matches!(&actions[0], BatchAction::RemoveFile(f) if f == "/out/merged.mp4"));
    match &actions[1] {
        BatchAction::Notify(e) => {
            assert!(matches!(e.status, SegmentStatus::Completed));
            assert_eq!(e.estimated_ms, Some(0));
        }
        other => panic!("expected the completing notification, got {}", action_kind(other)),
    }

    assert!(batch.is_finished());
    assert_eq!(batch.results.len(), 1);
    assert!(batch.results[0].success);
    assert_eq!(batch.results[0].output_path.as_deref(), Some("/out/a_final.mp4"));
}

#[test]
fn batch_keeps_the_cut_when_the_merge_fails() {
    let requests = vec![
        segment(0, 1000, "a", Some("/clips/intro.mp4")),
        segment(1000, 2000, "b", None),
    ];
    let mut batch = Batch::new(
        String::from("/in/src.mp4"),
        requests,
        String::from("/out"),
        None,
        false,
    );

    batch.begin_segment();
    batch.on_cut_done(Ok(()), 100);
    let actions = batch.on_merge_done(Err(MergeError { detail: String::from("concat refused") }), 200);
    match &actions[0] {
        BatchAction::Notify(e) => assert!(matches!(e.status, SegmentStatus::Failed)),
        other => panic!("expected a failure notification, got {}", action_kind(other)),
    }

    // the failure carries the still-valid cut output as partial progress
    assert!(!batch.results[0].success);
    assert_eq!(batch.results[0].output_path.as_deref(), Some("/out/a.mp4"));
    assert_eq!(
        batch.results[0].error_message.as_deref(),
        Some("Failed to add intro: concat refused")
    );

    // and the next segment still runs
    batch.begin_segment();
    batch.on_cut_done(Ok(()), 100);
    assert!(batch.is_finished());
    assert_eq!(batch.results.len(), 2);
    assert!(batch.results[1].success);
}

#[test]
fn batch_reports_cut_engine_failures() {
    let requests = vec![segment(0, 1000, "a", None)];
    let mut batch = Batch::new(
        String::from("/in/src.mp4"),
        requests,
        String::from("/out"),
        None,
        false,
    );
    batch.begin_segment();
    let actions = batch.on_cut_done(Err(CutError::Engine(String::from("engine exited with 1"))), 50);
    assert_eq!(actions.len(), 1);
    assert!(batch.is_finished());
    assert!(!batch.results[0].success);
    assert!(batch.results[0].output_path.is_none());
    assert_eq!(
        batch.results[0].error_message.as_deref(),
        Some("Failed to cut segment: engine exited with 1")
    );
}

#[test]
fn batch_reports_compression_failures() {
    let requests = vec![segment(0, 1000, "a", None)];
    let settings = CompressionSettings::new(25, String::from("medium"), String::from("libx264"));
    let mut batch = Batch::new(
        String::from("/in/src.mp4"),
        requests,
        String::from("/out"),
        Some(settings),
        true,
    );
    batch.begin_segment();
    let actions = batch.on_cut_done(Ok(()), 50);
    assert!(matches!(&actions[1], BatchAction::RunCompress { .. }));
    batch.on_compress_done(Err(CompressError { detail: String::from("no encoder") }), 80);
    assert!(!batch.results[0].success);
    assert_eq!(batch.results[0].output_path.as_deref(), Some("/out/a.mp4"));
    assert_eq!(
        batch.results[0].error_message.as_deref(),
        Some("Failed to compress: no encoder")
    );
}
