use quill::allocator::plan_allocation;
use quill::text::split_whitespace;
use quill::transcode::{build_ffmpeg_args, ffprobe_duration_args};

#[test]
fn ffprobe_query() {
    assert_eq!(
        ffprobe_duration_args("clip.mkv"),
        vec!["-v", "error", "-show_entries", "format=duration", "-of", "default=noprint_wrappers=1:nokey=1", "clip.mkv"]
    );
}

#[test]
fn encode_without_segment() {
    let args = build_ffmpeg_args("in.mp4", "out.mkv", None, None, "6", "-b:v 1200k", "10", "yuv420p10le");
    assert_eq!(
        args,
        vec![
            "-y", "-i", "in.mp4", "-c:v", "libsvtav1", "-b:v", "1200k", "-preset", "10",
            "-svtav1-params", "keyint=10s:tune=0:enable-overlays=1:lp=6", "-pix_fmt", "yuv420p10le",
            "-c:a", "libopus", "out.mkv",
        ]
    );
}

#[test]
fn encode_with_seek_and_duration() {
    let args = build_ffmpeg_args("a b.mp4", "o.mkv", Some("12.5"), Some("30"), "2", "-b:v 350k", "12", "yuv420p10le");
    assert_eq!(
        args,
        vec![
            "-y", "-ss", "12.5", "-i", "a b.mp4", "-t", "30", "-c:v", "libsvtav1", "-b:v", "350k",
            "-preset", "12", "-svtav1-params", "keyint=10s:tune=0:enable-overlays=1:lp=2",
            "-pix_fmt", "yuv420p10le", "-c:a", "libopus", "o.mkv",
        ]
    );
}

#[test]
fn plan_bitrate_becomes_two_arguments() {
    for bps in [0u32, 350_999, 1_234_567, u32::MAX] {
        let plan = plan_allocation(8000, Some(8), bps);
        let words = split_whitespace(&plan.crf_or_bitrate);
        assert_eq!(words, vec!["-b:v".to_string(), format!("{}k", plan.target_bitrate_kbps)]);
    }
}
