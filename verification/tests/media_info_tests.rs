use media_toc_player::media_info::{
    get_default_chapter_title, printable_codec, MediaContent, MediaInfo, Stream, StreamType,
    Streams, Tag,
};

fn stream(id: &str, codec: &str, type_: StreamType) -> Stream {
    Stream::new(String::from(id), String::from(codec), type_)
}

fn inventory_with_two_audio_one_video() -> Streams {
    let mut streams = Streams::default();
    streams.add_stream(stream("audio/0", "vorbis", StreamType::Audio));
    streams.add_stream(stream("audio/1", "flac", StreamType::Audio));
    streams.add_stream(stream("video/0", "vp9", StreamType::Video));
    streams
}

#[test]
fn first_stream_of_a_kind_is_selected() {
    let streams = inventory_with_two_audio_one_video();
    assert_eq!(streams.selected_audio().unwrap().id, "audio/0");
    assert_eq!(streams.selected_video().unwrap().id, "video/0");
    assert!(streams.selected_text().is_none());
    assert!(streams.is_video_selected());
    assert_eq!(streams.audio_codec().unwrap(), "vorbis");
    assert_eq!(streams.video_codec().unwrap(), "vp9");
}

#[test]
fn select_streams_switches_and_flags() {
    let mut streams = inventory_with_two_audio_one_video();
    let res = streams.select_streams(&vec![
        String::from("audio/1"),
        String::from("video/0"),
    ]);
    assert!(res.is_ok());
    assert_eq!(streams.selected_audio().unwrap().id, "audio/1");
    assert!(streams.audio_changed);
    // the video selection did not move
    assert_eq!(streams.selected_video().unwrap().id, "video/0");
    assert!(!streams.video_changed);
}

#[test]
fn select_streams_clears_unmentioned_kind() {
    let mut streams = inventory_with_two_audio_one_video();
    let res = streams.select_streams(&vec![String::from("audio/0")]);
    assert!(res.is_ok());
    // video was selected before, so clearing it marks it changed
    assert!(streams.selected_video().is_none());
    assert!(!streams.is_video_selected());
    assert!(streams.video_changed);
    // audio stayed on the same id: not changed
    assert_eq!(streams.selected_audio().unwrap().id, "audio/0");
    assert!(!streams.audio_changed);
    // text had no selection to clear: not changed
    assert!(!streams.text_changed);
}

#[test]
fn select_streams_unknown_id_rejected_and_nothing_changes() {
    let mut streams = inventory_with_two_audio_one_video();
    let res = streams.select_streams(&vec![
        String::from("audio/1"),
        String::from("nonsense"),
    ]);
    let err = res.unwrap_err();
    assert_eq!(err.id(), "nonsense");
    // the inventory's selections are exactly as before the call
    assert_eq!(streams.selected_audio().unwrap().id, "audio/0");
    assert_eq!(streams.selected_video().unwrap().id, "video/0");
    assert!(!streams.audio_changed);
    assert!(!streams.video_changed);
    assert!(!streams.text_changed);
}

#[test]
fn collection_lookup() {
    let streams = inventory_with_two_audio_one_video();
    assert!(streams.audio.contains(&String::from("audio/0")));
    assert!(!streams.audio.contains(&String::from("video/0")));
    let s = streams.audio.get(&String::from("audio/1")).unwrap();
    assert_eq!(s.codec_printable, "flac");
    assert!(streams.collection(StreamType::Video).contains(&String::from("video/0")));
}

#[test]
fn adding_a_stream_twice_replaces_it() {
    let mut streams = Streams::default();
    streams.add_stream(stream("audio/0", "vorbis", StreamType::Audio));
    streams.add_stream(stream("audio/0", "opus", StreamType::Audio));
    assert_eq!(streams.audio.collection.len(), 1);
    assert_eq!(
        streams.audio.get(&String::from("audio/0")).unwrap().codec_printable,
        "opus"
    );
}

#[test]
fn media_content_accumulates_kinds() {
    let mut content = MediaContent::Undefined;
    content.add_stream_type(StreamType::Audio);
    assert_eq!(content, MediaContent::Audio);
    content.add_stream_type(StreamType::Video);
    assert_eq!(content, MediaContent::AudioVideo);
    content.add_stream_type(StreamType::Text);
    assert_eq!(content, MediaContent::AudioVideoText);
    // already complete: recording more of the same changes nothing
    content.add_stream_type(StreamType::Audio);
    assert_eq!(content, MediaContent::AudioVideoText);

    let mut content = MediaContent::Undefined;
    content.add_stream_type(StreamType::Text);
    assert_eq!(content, MediaContent::Text);
}

#[test]
fn media_info_records_streams_and_content() {
    let mut info = MediaInfo::new(
        String::from("movie"),
        String::from("movie.mkv"),
        String::from("/media/movie.mkv"),
    );
    assert_eq!(info.content, MediaContent::Undefined);
    info.add_stream(stream("audio/0", "vorbis", StreamType::Audio));
    info.add_stream(stream("video/0", "vp9", StreamType::Video));
    assert_eq!(info.content, MediaContent::AudioVideo);
    assert!(info.streams.audio.contains(&String::from("audio/0")));
    assert!(info.streams.video.contains(&String::from("video/0")));
}

#[test]
fn tags_merge_keeps_existing_entries() {
    let mut info = MediaInfo::new(
        String::from("movie"),
        String::from("movie.mkv"),
        String::from("/media/movie.mkv"),
    );
    info.add_tags(&vec![Tag { name: String::from("title"), value: String::from("First") }]);
    info.add_tags(&vec![
        Tag { name: String::from("title"), value: String::from("Second") },
        Tag { name: String::from("artist"), value: String::from("Someone") },
    ]);
    assert_eq!(info.tags.len(), 2);
    assert_eq!(info.tags[0].name, "title");
    assert_eq!(info.tags[0].value, "First");
    assert_eq!(info.tags[1].name, "artist");
}

#[test]
fn default_chapter_title() {
    assert_eq!(get_default_chapter_title(), "untitled");
}

#[test]
fn printable_codec_prefers_the_tag() {
    assert_eq!(
        printable_codec(Some(String::from("AAC")), "audio/mp4"),
        "AAC"
    );
}

#[test]
fn printable_codec_reads_the_caps_name() {
    assert_eq!(printable_codec(None, "audio/x-vorbis"), "vorbis");
    assert_eq!(printable_codec(None, "video/vp9"), "vp9");
    // any other shape stands as it is
    assert_eq!(printable_codec(None, "plain"), "plain");
    assert_eq!(printable_codec(None, "a/b/c"), "a/b/c");
    assert_eq!(printable_codec(None, "audio/x-"), "");
}

#[test]
fn sorted_streams_by_id() {
    let mut streams = Streams::default();
    streams.add_stream(stream("audio/2", "c2", StreamType::Audio));
    streams.add_stream(stream("audio/0", "c0", StreamType::Audio));
    streams.add_stream(stream("audio/1", "c1", StreamType::Audio));
    let sorted = streams.audio.sorted();
    assert_eq!(sorted.len(), 3);
    assert_eq!(sorted[0].id, "audio/0");
    assert_eq!(sorted[1].id, "audio/1");
    assert_eq!(sorted[2].id, "audio/2");
    // the collection itself keeps its insertion order
    assert_eq!(streams.audio.collection[0].id, "audio/2");
}

#[test]
fn tag_display_falls_back_to_the_secondary_name() {
    let mut info = MediaInfo::new(
        String::from("movie"),
        String::from("movie.mkv"),
        String::from("/media/movie.mkv"),
    );
    assert!(info.media_artist().is_none());
    assert!(info.media_title().is_none());

    info.add_tags(&vec![
        Tag { name: String::from("album-artist"), value: String::from("Band") },
        Tag { name: String::from("album"), value: String::from("Record") },
    ]);
    assert_eq!(info.media_artist().unwrap().value, "Band");
    assert_eq!(info.media_title().unwrap().value, "Record");

    info.add_tags(&vec![
        Tag { name: String::from("artist"), value: String::from("Soloist") },
        Tag { name: String::from("title"), value: String::from("Song") },
    ]);
    // the primary names take precedence once present
    assert_eq!(info.media_artist().unwrap().value, "Soloist");
    assert_eq!(info.media_title().unwrap().value, "Song");
}
