//! Files that are dropped, and the lanes they go to.

use morreel::drop::{handle_drop, route_drop, Lane};
use morreel::icon::{icon_of, system_icon_src, window_icon};
use morreel::dialog::{AsyncFileDialog, FileHandle};
use morreel::lanes::{audio_tracks, overlay_tracks, title_tracks};
use morreel::paths::{file_name_of, is_still, join_path, kind_of, Kind};

#[test]
fn dropped_files_are_classified_by_extension() {
    assert_eq!(kind_of("/x/a.mp4"), Kind::Video);
    assert_eq!(kind_of("/x/a.MKV"), Kind::Video);
    assert_eq!(kind_of("/x/a.gif"), Kind::Video); // animated: video, not a still
    assert_eq!(kind_of("/x/a.png"), Kind::Still);
    assert_eq!(kind_of("/x/a.JPEG"), Kind::Still);
    assert_eq!(kind_of("/x/a.heic"), Kind::Still);
    assert_eq!(kind_of("/x/a.HEIF"), Kind::Still);
    assert_eq!(kind_of("/x/a.tiff"), Kind::Still);
    assert_eq!(kind_of("/x/a.bmp"), Kind::Still);
    assert_eq!(kind_of("/x/a.webp"), Kind::Still);
    assert_eq!(kind_of("/x/a.avif"), Kind::Still);
    assert_eq!(kind_of("/x/a.pdf"), Kind::Video);
    assert_eq!(kind_of("/x/a.psd"), Kind::Video);
    assert_eq!(kind_of("/x/a.cr2"), Kind::Video);
    assert_eq!(kind_of("/x/a.mp3"), Kind::Audio);
    assert_eq!(kind_of("/x/a.flac"), Kind::Audio);
    assert_eq!(kind_of("/x/mystery.xyz"), Kind::Video);
    assert_eq!(kind_of("/x/noext"), Kind::Video);
}

#[test]
fn drops_route_to_the_lane_the_file_belongs_on() {
    assert_eq!(route_drop(Kind::Video, Lane::V1), Ok((Lane::V1, None)));
    assert_eq!(route_drop(Kind::Still, Lane::V1), Ok((Lane::V1, None)));
    assert_eq!(route_drop(Kind::Video, Lane::V(2)), Ok((Lane::V(2), None)));
    assert_eq!(route_drop(Kind::Audio, Lane::A(1)), Ok((Lane::A(1), None)));
    assert_eq!(route_drop(Kind::Audio, Lane::A(2)), Ok((Lane::A(2), None)));

    assert_eq!(route_drop(Kind::Audio, Lane::V1), Ok((Lane::A(1), Some("audio goes to A1"))));
    assert_eq!(route_drop(Kind::Audio, Lane::V(2)), Ok((Lane::A(1), Some("audio goes to A1"))));

    assert_eq!(
        route_drop(Kind::Video, Lane::A(1)),
        Ok((Lane::A(1), Some("using its soundtrack")))
    );
    assert_eq!(
        route_drop(Kind::Video, Lane::A(2)),
        Ok((Lane::A(2), Some("using its soundtrack")))
    );
    assert!(route_drop(Kind::Still, Lane::A(1)).is_err());
    assert!(route_drop(Kind::Still, Lane::A(2)).is_err());
}

#[test]
fn multi_track_ranges_and_drop_routing() {
    assert_eq!(overlay_tracks(2), vec![2, 3]);
    assert_eq!(title_tracks(3), vec![1, 2, 3]);
    assert_eq!(audio_tracks(4), vec![1, 2, 3, 4]);
    // Drop routing accepts any V/A lane; photos never go to audio.
    assert_eq!(route_drop(Kind::Video, Lane::V(3)), Ok((Lane::V(3), None)));
    assert_eq!(route_drop(Kind::Still, Lane::V(4)), Ok((Lane::V(4), None)));
    assert_eq!(route_drop(Kind::Audio, Lane::A(3)), Ok((Lane::A(3), None)));
    assert_eq!(
        route_drop(Kind::Audio, Lane::V(3)),
        Ok((Lane::A(1), Some("audio goes to A1")))
    );
    assert!(route_drop(Kind::Still, Lane::A(3)).is_err());
}

#[test]
fn file_name_of_handles_paths_and_junk() {
    assert_eq!(file_name_of("/a/b/clip.mp4"), "clip.mp4");
    assert_eq!(file_name_of("clip.mp4"), "clip.mp4");
    assert_eq!(file_name_of(""), "");
}

#[test]
fn a_mixed_drop_is_sorted_onto_its_lanes() {
    let paths = vec!["/x/a.mp4".to_string(), "/x/b.mp3".to_string(), "/x/c.png".to_string()];
    let plan = handle_drop(&vec![], &paths, Lane::V1, 0);
    assert_eq!(plan.clips, vec!["/x/a.mp4".to_string(), "/x/c.png".to_string()]);
    assert_eq!(plan.index, 0);
    assert_eq!(plan.lanes.len(), 1);
    assert_eq!(plan.lanes[0].path, "/x/b.mp3");
    assert_eq!(plan.lanes[0].lane, Lane::A(1));
    assert_eq!(plan.status, Some("Dropped — audio goes to A1.".to_string()));
}

#[test]
fn a_photo_on_an_audio_lane_is_refused_by_name() {
    let plan = handle_drop(&vec![], &vec!["/x/c.png".to_string()], Lane::A(1), 0);
    assert!(plan.clips.is_empty() && plan.lanes.is_empty());
    assert_eq!(plan.status, Some("Skipped c.png (a photo has no sound)".to_string()));
    let none = handle_drop(&vec![], &vec![], Lane::V1, 0);
    assert_eq!(none.status, None);
}

#[test]
fn photos_are_stills() {
    assert!(is_still("/x/a.png"));
    assert!(!is_still("/x/a.mp4"));
    assert_eq!(join_path("/a/b", "c.mp4"), "/a/b/c.mp4");
    assert_eq!(join_path("/a/b/", "c.mp4"), "/a/b/c.mp4");
    assert_eq!(join_path("/a", "/c.mp4"), "/c.mp4");
}

#[test]
fn a_dialog_hands_back_what_was_picked() {
    let one = AsyncFileDialog::new()
        .add_filter("Video", &["mp4", "mov"])
        .set_title("Pick")
        .pick_file(vec!["/a/x.mp4".to_string()])
        .unwrap();
    assert_eq!(one.path(), "/a/x.mp4");
    assert_eq!(one.file_name(), "x.mp4");
    assert!(AsyncFileDialog::new().pick_file(vec![]).is_none());
    assert!(AsyncFileDialog::new().pick_files(vec![]).is_none());
    let all: Vec<FileHandle> =
        AsyncFileDialog::new().pick_files(vec!["/a".to_string(), "/b".to_string()]).unwrap();
    assert_eq!(all.len(), 2);
    assert_eq!(all[1].path(), "/b");
    assert!(AsyncFileDialog::new().pick_folder().is_none());
    let saved = AsyncFileDialog::new().set_file_name("reel.morreel").save_file("/home/me").unwrap();
    assert_eq!(saved.path(), "/home/me/reel.morreel");
}

#[test]
fn filter_endings_are_kept_in_lower_case() {
    let d = AsyncFileDialog::new().add_filter("Video", &["MP4", "mov"]).add_filter("Sound", &["WaV"]);
    assert_eq!(d.exts, vec!["mp4".to_string(), "mov".to_string(), "wav".to_string()]);
}

/// A PNG of one red pixel, with the checksums its chunks need.
const RED: [u8; 69] = [
    0x89, 0x50, 0x4e, 0x47, 0x0d, 0x0a, 0x1a, 0x0a, 0x00, 0x00, 0x00, 0x0d, 0x49, 0x48, 0x44, 0x52, 0x00, 0x00,
    0x00, 0x01, 0x00, 0x00, 0x00, 0x01, 0x08, 0x02, 0x00, 0x00, 0x00, 0x90, 0x77, 0x53, 0xde, 0x00, 0x00, 0x00,
    0x0c, 0x49, 0x44, 0x41, 0x54, 0x78, 0x9c, 0x63, 0xf8, 0xcf, 0xc0, 0x00, 0x00, 0x03, 0x01, 0x01, 0x00, 0xc9,
    0xfe, 0x92, 0xef, 0x00, 0x00, 0x00, 0x00, 0x49, 0x45, 0x4e, 0x44, 0xae, 0x42, 0x60, 0x82,
];

#[test]
fn the_window_icon_is_decoded_to_pixels() {
    let icon = window_icon(&RED).expect("a valid image");
    assert_eq!((icon.width, icon.height), (1, 1));
    assert_eq!(icon.rgba, vec![255, 0, 0, 255]);
    assert!(window_icon(&[1, 2, 3]).is_none());
}

#[test]
fn an_icon_has_four_bytes_for_each_pixel() {
    assert!(icon_of(vec![0; 8], 2, 1).is_some());
    assert!(icon_of(vec![0; 7], 2, 1).is_none());
    assert!(icon_of(vec![0; 8], 1, 1).is_none());
}

#[test]
fn the_title_bar_icon_is_a_data_address() {
    assert_eq!(system_icon_src(" AAAA\n"), "data:image/png;base64,AAAA");
}
