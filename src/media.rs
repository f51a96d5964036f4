use vstd::prelude::*;
use vstd::string::*;

use crate::consts::MEDIA_DIR;
use crate::text::{signed_decimal, signed_decimal_of};

verus! {

/// The top-level type and subtype that the `mime` crate reads from a media
/// type's text, or `None` where it finds no media type there.
pub uninterp spec fn mime_parts(s: Seq<char>) -> Option<(Seq<char>, Seq<char>)>;

/// Relies on `mime::Mime`'s `FromStr` with `Mime::type_` and `Mime::subtype`:
/// whether the text parses as a media type and, if so, its top-level type and
/// subtype, which depend on the text alone.
#[verifier::external_body]
fn parse_mime(s: &str) -> (r: Option<(String, String)>)
    ensures
        match r {
            Some(p) => mime_parts(s@) == Some((p.0@, p.1@)),
            None => mime_parts(s@) is None,
        },
{
    match s.parse::<mime::Mime>() {
        Ok(m) => Some((m.type_().as_str().to_string(), m.subtype().as_str().to_string())),
        Err(_) => None,
    }
}

pub const AUDIO: &'static str = "audio";

pub const VIDEO: &'static str = "video";

pub const MP3: &'static str = "mp3";

pub const SLASH: &'static str = "/";

pub const DOT: &'static str = ".";

/// What to do with an attachment before it can be summarized.
#[derive(Debug)]
pub enum MediaPlan {
    /// Not audio or video: nothing to transcribe.
    Unsupported,
    /// Download to `path`, then transcribe it.
    Audio { path: String },
    /// Download to `path`, transcode it to `audio_path`, then transcribe that.
    Video { path: String, audio_path: String },
}

/// Where the media of a message is kept, by the message id and an extension.
pub open spec fn media_path(message_id: i32, extension: Seq<char>) -> Seq<char> {
    MEDIA_DIR@ + SLASH@ + signed_decimal_of(message_id as int) + DOT@ + extension
}

/// The plan for an attachment whose media type reads as `parts`.
pub open spec fn plan_matches(r: MediaPlan, message_id: i32, parts: Option<(Seq<char>, Seq<char>)>) -> bool {
    match parts {
        Some((t, sub)) => if t == AUDIO@ {
            r matches MediaPlan::Audio { path } && path@ == media_path(message_id, sub)
        } else if t == VIDEO@ {
            r matches MediaPlan::Video { path, audio_path } && path@ == media_path(message_id, sub)
                && audio_path@ == media_path(message_id, MP3@)
        } else {
            r is Unsupported
        },
        None => r is Unsupported,
    }
}

/// Builds the path of a message's media file.
pub fn media_file(message_id: i32, extension: &str) -> (r: String)
    ensures
        r@ == media_path(message_id, extension@),
{
    let mut path = String::from_str(MEDIA_DIR);
    path.append(SLASH);
    let id = signed_decimal(message_id);
    path.append(id.as_str());
    path.append(DOT);
    path.append(extension);
    path
}

/// The plan for an attachment from its media type's top-level type and
/// subtype: audio and video are downloaded under the message id, and video
/// is transcoded to mp3; anything else is unsupported.
pub fn plan_for_parts(message_id: i32, parts: Option<(String, String)>) -> (r: MediaPlan)
    ensures
        plan_matches(
            r,
            message_id,
            match parts {
                Some(p) => Some((p.0@, p.1@)),
                None => None,
            },
        ),
{
    match parts {
        Some((t, sub)) => {
            let audio = String::from_str(AUDIO);
            let video = String::from_str(VIDEO);
            if t.eq(&audio) {
                MediaPlan::Audio { path: media_file(message_id, sub.as_str()) }
            } else if t.eq(&video) {
                MediaPlan::Video {
                    path: media_file(message_id, sub.as_str()),
                    audio_path: media_file(message_id, MP3),
                }
            } else {
                MediaPlan::Unsupported
            }
        },
        None => MediaPlan::Unsupported,
    }
}

/// The plan for an attachment with the given media type, if it has one.
pub fn plan_media(message_id: i32, mime_type: Option<&str>) -> (r: MediaPlan)
    ensures
        plan_matches(
            r,
            message_id,
            match mime_type {
                Some(s) => mime_parts(s@),
                None => None,
            },
        ),
{
    match mime_type {
        Some(s) => plan_for_parts(message_id, parse_mime(s)),
        None => MediaPlan::Unsupported,
    }
}

/// How getting text out of a message's attachment ended.
#[derive(Debug)]
pub enum MediaText {
    /// The message has no attachment.
    NoMedia,
    /// The attachment is not audio or video.
    Unsupported,
    /// A step failed; the notice says which.
    Failed(String),
    /// The transcript of the attachment.
    Transcript(String),
}

/// What the media pipeline reports back after an action.
pub enum MediaEvent {
    /// The download finished, and whether it succeeded.
    Downloaded(bool),
    /// The transcoding finished, and whether it succeeded.
    Converted(bool),
    /// The transcription finished, with its text if there was any.
    Transcribed(Option<String>),
}

/// The next step of the media pipeline.
#[derive(Debug)]
pub enum MediaAction {
    Download { path: String },
    Convert { from: String, to: String },
    Transcribe { path: String },
    Finish(MediaText),
}

pub const DOWNLOAD_FAILED: &'static str = "Failed to download media";

pub const CONVERT_FAILED: &'static str = "Failed to convert video to audio";

pub const TRANSCRIBE_FAILED: &'static str = "Failed to transcribe audio";

/// The action a plan starts with.
pub open spec fn first_action_matches(r: MediaAction, plan: MediaPlan) -> bool {
    match plan {
        MediaPlan::Unsupported => r matches MediaAction::Finish(MediaText::Unsupported),
        MediaPlan::Audio { path } => r == MediaAction::Download { path },
        MediaPlan::Video { path, .. } => r == MediaAction::Download { path },
    }
}

/// The action that follows `event` under `plan`: a failed step ends the
/// pipeline with its notice; a download goes on to transcoding for video and
/// to transcription for audio; a transcoding goes on to transcription of the
/// audio file; a transcription ends the pipeline with its text.
pub open spec fn next_action_matches(r: MediaAction, plan: MediaPlan, event: MediaEvent) -> bool {
    match event {
        MediaEvent::Downloaded(false) => r matches MediaAction::Finish(MediaText::Failed(n))
            && n@ == DOWNLOAD_FAILED@,
        MediaEvent::Downloaded(true) => match plan {
            MediaPlan::Audio { path } => r == MediaAction::Transcribe { path },
            MediaPlan::Video { path, audio_path } => r == MediaAction::Convert {
                from: path,
                to: audio_path,
            },
            MediaPlan::Unsupported => r matches MediaAction::Finish(MediaText::Unsupported),
        },
        MediaEvent::Converted(false) => r matches MediaAction::Finish(MediaText::Failed(n))
            && n@ == CONVERT_FAILED@,
        MediaEvent::Converted(true) => match plan {
            MediaPlan::Video { audio_path, .. } => r == MediaAction::Transcribe { path: audio_path },
            MediaPlan::Audio { path } => r == MediaAction::Transcribe { path },
            MediaPlan::Unsupported => r matches MediaAction::Finish(MediaText::Unsupported),
        },
        MediaEvent::Transcribed(None) => r matches MediaAction::Finish(MediaText::Failed(n))
            && n@ == TRANSCRIBE_FAILED@,
        MediaEvent::Transcribed(Some(t)) => r == MediaAction::Finish(MediaText::Transcript(t)),
    }
}

/// The first step for an attachment.
pub fn first_media_action(plan: &MediaPlan) -> (r: MediaAction)
    ensures
        first_action_matches(r, *plan),
{
    match plan {
        MediaPlan::Unsupported => MediaAction::Finish(MediaText::Unsupported),
        MediaPlan::Audio { path } => MediaAction::Download { path: path.clone() },
        MediaPlan::Video { path, .. } => MediaAction::Download { path: path.clone() },
    }
}

/// The step after `event`.
pub fn next_media_action(plan: &MediaPlan, event: MediaEvent) -> (r: MediaAction)
    ensures
        next_action_matches(r, *plan, event),
{
    match event {
        MediaEvent::Downloaded(false) => MediaAction::Finish(
            MediaText::Failed(String::from_str(DOWNLOAD_FAILED)),
        ),
        MediaEvent::Downloaded(true) => match plan {
            MediaPlan::Audio { path } => MediaAction::Transcribe { path: path.clone() },
            MediaPlan::Video { path, audio_path } => MediaAction::Convert {
                from: path.clone(),
                to: audio_path.clone(),
            },
            MediaPlan::Unsupported => MediaAction::Finish(MediaText::Unsupported),
        },
        MediaEvent::Converted(false) => MediaAction::Finish(
            MediaText::Failed(String::from_str(CONVERT_FAILED)),
        ),
        MediaEvent::Converted(true) => match plan {
            MediaPlan::Video { audio_path, .. } => MediaAction::Transcribe {
                path: audio_path.clone(),
            },
            MediaPlan::Audio { path } => MediaAction::Transcribe { path: path.clone() },
            MediaPlan::Unsupported => MediaAction::Finish(MediaText::Unsupported),
        },
        MediaEvent::Transcribed(None) => MediaAction::Finish(
            MediaText::Failed(String::from_str(TRANSCRIBE_FAILED)),
        ),
        MediaEvent::Transcribed(Some(t)) => MediaAction::Finish(MediaText::Transcript(t)),
    }
}

} // verus!
