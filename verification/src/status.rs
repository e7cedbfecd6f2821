//! What the user is told.

use vstd::prelude::*;
use vstd::string::*;

verus! {

/// Something to tell the user.
#[derive(Debug)]
pub enum Status {
    AudioFailed(String),
    Exporting,
    /// The names of the video file and of the sound file.
    Exported(String, String),
    ExportFailed(String),
    RecordingStarted,
    RecordingNotStarted(String),
    RecordingImported,
    RecordingNotLoaded(String),
    RecordingFailed(String),
}

impl Status {
    pub open spec fn text(self) -> Seq<char> {
        match self {
            Status::AudioFailed(cause) => "Audio decoding failed: "@ + cause@,
            Status::Exporting => "Exporting..."@,
            Status::Exported(video, sound) => "Exported "@ + video@ + " (audio: "@ + sound@ + ")"@,
            Status::ExportFailed(cause) => "Export failed: "@ + cause@,
            Status::RecordingStarted => "Recording started..."@,
            Status::RecordingNotStarted(cause) => "Failed to start recording: "@ + cause@,
            Status::RecordingImported => "Recording saved and imported!"@,
            Status::RecordingNotLoaded(cause) => "Failed to load recorded asset: "@ + cause@,
            Status::RecordingFailed(cause) => "Recording error: "@ + cause@,
        }
    }

    /// The text of the message.
    pub fn message(&self) -> (r: String)
        ensures
            r@ == self.text(),
    {
        match self {
            Status::AudioFailed(cause) => with_cause("Audio decoding failed: ", cause),
            Status::Exporting => String::from_str("Exporting..."),
            Status::Exported(video, sound) => {
                let mut text: String = String::from_str("Exported ");
                text.append(video.as_str());
                text.append(" (audio: ");
                text.append(sound.as_str());
                text.append(")");
                text
            },
            Status::ExportFailed(cause) => with_cause("Export failed: ", cause),
            Status::RecordingStarted => String::from_str("Recording started..."),
            Status::RecordingNotStarted(cause) => with_cause("Failed to start recording: ", cause),
            Status::RecordingImported => String::from_str("Recording saved and imported!"),
            Status::RecordingNotLoaded(cause) => with_cause(
                "Failed to load recorded asset: ",
                cause,
            ),
            Status::RecordingFailed(cause) => with_cause("Recording error: ", cause),
        }
    }
}

fn with_cause(what: &str, cause: &String) -> (r: String)
    ensures
        r@ == what@ + cause@,
{
    let mut text: String = String::from_str(what);
    text.append(cause.as_str());
    text
}

/// The label of an asset in the media bin.
pub open spec fn asset_text(name: Seq<char>, is_video: bool, is_decoding: bool) -> Seq<char> {
    (if is_video {
        "▶ Video"@
    } else {
        "♫ Audio"@
    }) + " - "@ + name + (if is_decoding {
        " (Decoding Audio...)"@
    } else {
        Seq::empty()
    })
}

/// The label of an asset in the media bin.
pub fn asset_label(name: &String, is_video: bool, is_decoding: bool) -> (r: String)
    ensures
        r@ == asset_text(name@, is_video, is_decoding),
{
    let mut text: String = if is_video {
        String::from_str("▶ Video")
    } else {
        String::from_str("♫ Audio")
    };
    text.append(" - ");
    text.append(name.as_str());
    if is_decoding {
        text.append(" (Decoding Audio...)");
    }
    assert(text@ =~= asset_text(name@, is_video, is_decoding));
    text
}

} // verus!
