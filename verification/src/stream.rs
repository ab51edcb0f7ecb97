//! What the live-stream window puts on the panel: the source of each frame, chosen from the
//! streaming mode and the media that is loaded.
use vstd::prelude::*;
use crate::text::str_equals;

verus! {

/// What the live stream shows.
#[derive(Debug, Clone, Copy, PartialEq, Eq, Structural)]
pub enum StreamMode {
    /// The telemetry dashboard.
    Dashboard,
    /// A loaded picture or video.
    Media,
    /// A test pattern.
    Pattern,
}

/// The kind of media file that the media mode plays.
#[derive(Debug, Clone, Copy, PartialEq, Eq, Structural)]
pub enum MediaKind {
    /// Nothing loaded yet.
    Empty,
    Image,
    Video,
}

/// Where the next frame of the stream comes from.
#[derive(Debug, Clone, Copy, PartialEq, Eq, Structural)]
pub enum FrameSource {
    /// The dashboard, drawn after a sensor refresh.
    Dashboard,
    /// The selected test pattern, at the number of frames sent so far.
    Pattern,
    /// The loaded picture, framed by the media settings.
    Picture,
    /// The next frame that the video decoder hands out.
    VideoFrame,
    /// A black frame.
    Black,
}

/// The source of the next frame: the dashboard or the pattern in their modes; in the media
/// mode the picture (black while none is decoded), the video, or black when nothing is loaded.
pub fn frame_source(mode: StreamMode, kind: MediaKind, has_picture: bool) -> (r: FrameSource)
    ensures
        r == match mode {
            StreamMode::Dashboard => FrameSource::Dashboard,
            StreamMode::Pattern => FrameSource::Pattern,
            StreamMode::Media => match kind {
                MediaKind::Image => if has_picture {
                    FrameSource::Picture
                } else {
                    FrameSource::Black
                },
                MediaKind::Video => FrameSource::VideoFrame,
                MediaKind::Empty => FrameSource::Black,
            },
        },
{
    match mode {
        StreamMode::Dashboard => FrameSource::Dashboard,
        StreamMode::Pattern => FrameSource::Pattern,
        StreamMode::Media => match kind {
            MediaKind::Image => {
                if has_picture {
                    FrameSource::Picture
                } else {
                    FrameSource::Black
                }
            },
            MediaKind::Video => FrameSource::VideoFrame,
            MediaKind::Empty => FrameSource::Black,
        },
    }
}

/// The (lowercase) file extensions that are played as video; anything else is opened as a
/// picture.
pub open spec fn video_extension(ext: Seq<char>) -> bool {
    ||| ext == "mp4"@
    ||| ext == "mkv"@
    ||| ext == "webm"@
    ||| ext == "avi"@
    ||| ext == "mov"@
    ||| ext == "flv"@
    ||| ext == "gif"@
}

/// Whether a lowercased file extension is one that the video decoder plays.
pub fn is_video_extension(ext: &str) -> (r: bool)
    ensures
        r == video_extension(ext@),
{
    str_equals(ext, "mp4") || str_equals(ext, "mkv") || str_equals(ext, "webm") || str_equals(
        ext,
        "avi",
    ) || str_equals(ext, "mov") || str_equals(ext, "flv") || str_equals(ext, "gif")
}

/// The media kind after an attempt to load a file: video for a video extension, picture for any
/// other; a file that failed to load leaves the kind as it was.
pub fn media_kind_after_load(previous: MediaKind, ext: &str, loaded: bool) -> (r: MediaKind)
    ensures
        r == (if !loaded {
            previous
        } else if video_extension(ext@) {
            MediaKind::Video
        } else {
            MediaKind::Image
        }),
{
    if !loaded {
        previous
    } else if is_video_extension(ext) {
        MediaKind::Video
    } else {
        MediaKind::Image
    }
}

} // verus!
