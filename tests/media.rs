use summarize_bot::media::{
    first_media_action, media_file, next_media_action, plan_for_parts, plan_media, MediaAction,
    MediaEvent, MediaPlan, MediaText,
};

fn audio_path(plan: &MediaPlan) -> String {
    match plan {
        MediaPlan::Audio { path } => path.clone(),
        other => panic!("expected audio, got {:?}", other),
    }
}

#[test]
fn audio_is_downloaded_under_message_id() {
    let plan = plan_media(42, Some("audio/ogg"));
    assert_eq!(audio_path(&plan), "./media/42.ogg");
}

#[test]
fn media_type_is_read_case_insensitively() {
    let plan = plan_media(7, Some("Audio/MPEG"));
    assert_eq!(audio_path(&plan), "./media/7.mpeg");
}

#[test]
fn video_is_transcoded_to_mp3() {
    match plan_media(5, Some("video/mp4; codecs=avc1")) {
        MediaPlan::Video { path, audio_path } => {
            assert_eq!(path, "./media/5.mp4");
            assert_eq!(audio_path, "./media/5.mp3");
        }
        other => panic!("expected video, got {:?}", other),
    }
}

#[test]
fn other_media_is_unsupported() {
    assert!(matches!(plan_media(1, Some("image/png")), MediaPlan::Unsupported));
    assert!(matches!(plan_media(1, Some("not a type")), MediaPlan::Unsupported));
    assert!(matches!(plan_media(1, None), MediaPlan::Unsupported));
    assert!(matches!(plan_for_parts(1, Some(("text".to_string(), "plain".to_string()))), MediaPlan::Unsupported));
}

#[test]
fn negative_ids_keep_their_sign() {
    assert_eq!(media_file(-3, "ogg"), "./media/-3.ogg");
}

#[test]
fn video_pipeline_runs_in_order() {
    let plan = plan_media(9, Some("video/webm"));
    match first_media_action(&plan) {
        MediaAction::Download { path } => assert_eq!(path, "./media/9.webm"),
        other => panic!("{:?}", other),
    }
    match next_media_action(&plan, MediaEvent::Downloaded(true)) {
        MediaAction::Convert { from, to } => {
            assert_eq!(from, "./media/9.webm");
            assert_eq!(to, "./media/9.mp3");
        }
        other => panic!("{:?}", other),
    }
    match next_media_action(&plan, MediaEvent::Converted(true)) {
        MediaAction::Transcribe { path } => assert_eq!(path, "./media/9.mp3"),
        other => panic!("{:?}", other),
    }
    match next_media_action(&plan, MediaEvent::Transcribed(Some("words".to_string()))) {
        MediaAction::Finish(MediaText::Transcript(t)) => assert_eq!(t, "words"),
        other => panic!("{:?}", other),
    }
}

#[test]
fn audio_skips_transcoding() {
    let plan = plan_media(2, Some("audio/mpeg"));
    match next_media_action(&plan, MediaEvent::Downloaded(true)) {
        MediaAction::Transcribe { path } => assert_eq!(path, "./media/2.mpeg"),
        other => panic!("{:?}", other),
    }
}

#[test]
fn failed_steps_stop_with_notice() {
    let plan = plan_media(2, Some("video/mp4"));
    let notice = |a: MediaAction| match a {
        MediaAction::Finish(MediaText::Failed(n)) => n,
        other => panic!("{:?}", other),
    };
    assert_eq!(notice(next_media_action(&plan, MediaEvent::Downloaded(false))), "Failed to download media");
    assert_eq!(notice(next_media_action(&plan, MediaEvent::Converted(false))), "Failed to convert video to audio");
    assert_eq!(notice(next_media_action(&plan, MediaEvent::Transcribed(None))), "Failed to transcribe audio");
}

#[test]
fn unsupported_finishes_at_once() {
    let plan = plan_media(2, Some("image/jpeg"));
    assert!(matches!(first_media_action(&plan), MediaAction::Finish(MediaText::Unsupported)));
}
