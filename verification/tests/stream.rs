use x870e_lcd::stream::{frame_source, is_video_extension, media_kind_after_load, FrameSource, MediaKind, StreamMode};

#[test]
fn frame_source_follows_mode_and_media() {
    assert_eq!(frame_source(StreamMode::Dashboard, MediaKind::Video, true), FrameSource::Dashboard);
    assert_eq!(frame_source(StreamMode::Pattern, MediaKind::Image, true), FrameSource::Pattern);
    assert_eq!(frame_source(StreamMode::Media, MediaKind::Image, true), FrameSource::Picture);
    assert_eq!(frame_source(StreamMode::Media, MediaKind::Image, false), FrameSource::Black);
    assert_eq!(frame_source(StreamMode::Media, MediaKind::Video, false), FrameSource::VideoFrame);
    assert_eq!(frame_source(StreamMode::Media, MediaKind::Empty, true), FrameSource::Black);
}

#[test]
fn video_extensions_are_recognised() {
    for ext in ["mp4", "mkv", "webm", "avi", "mov", "flv", "gif"] {
        assert!(is_video_extension(ext), "{ext}");
    }
    for ext in ["png", "jpg", "jpeg", "MP4", "", "mp", "mp44"] {
        assert!(!is_video_extension(ext), "{ext}");
    }
}

#[test]
fn media_kind_changes_only_on_a_successful_load() {
    assert_eq!(media_kind_after_load(MediaKind::Empty, "mkv", true), MediaKind::Video);
    assert_eq!(media_kind_after_load(MediaKind::Video, "png", true), MediaKind::Image);
    assert_eq!(media_kind_after_load(MediaKind::Image, "mkv", false), MediaKind::Image);
    assert_eq!(media_kind_after_load(MediaKind::Empty, "png", false), MediaKind::Empty);
}
