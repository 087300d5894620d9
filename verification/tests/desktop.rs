use tello_ui::desktop::{expand_rgb_to_rgba, ImageCarousel, LightSignal, RawImage, Text, Video, VideoDecoder};
use tello_ui::ui::UI;
use tello_ui::utils::{alloc_vec, blink_phase, sort_files_by_modified};

#[test]
fn text_set_replaces_caption() {
    let mut t = Text::new();
    assert_eq!("", t.value());
    t.set(String::from("battery 9%"));
    assert_eq!("battery 9%", t.value());
}

#[test]
fn carousel_turns_and_toggles() {
    let mut c = ImageCarousel::new(String::from("images"), 10);
    assert_eq!(0, c.offset());
    assert!(!c.show());
    assert_eq!(10, c.number_of_images());
    assert_eq!("images", c.image_dir());
    c.turn_left();
    assert_eq!(0, c.offset());
    c.turn_right();
    c.turn_right();
    assert_eq!(2, c.offset());
    c.turn_left();
    assert_eq!(1, c.offset());
    c.toggle_show();
    assert!(c.show());
    c.toggle_show();
    assert!(!c.show());
}

#[test]
fn light_signal_keeps_timestamp() {
    let mut s = LightSignal::new(100);
    assert_eq!(100, s.last_seen());
    s.timestamp(2500);
    assert_eq!(2500, s.last_seen());
}

#[test]
fn raw_image_set_image_and_size() {
    let mut img = RawImage::new(2, 2);
    assert_eq!(12, img.rgb().len());
    assert!(img.rgb().iter().all(|b| *b == 0));
    img.set_image(&vec![1, 2, 3]);
    assert_eq!(&vec![1, 2, 3], img.rgb());
    img.set_size(4, 5);
    assert_eq!(4, img.width());
    assert_eq!(5, img.height());
    assert_eq!(&vec![1, 2, 3], img.rgb());
}

#[test]
fn video_decoder_buffer_dimensions() {
    let d = VideoDecoder::new(960, 720, 3);
    assert_eq!(960 * 720 * 3, d.rgb.len());
    assert_eq!(3, d.skip_frames);
    let v = Video::new(960, 720);
    assert_eq!(960, v.width());
    assert_eq!(720, v.height());
}

#[test]
fn ui_runs_at_sixty_fps() {
    let ui = UI::new(1024, 768);
    assert_eq!(1024, ui.width());
    assert_eq!(768, ui.height());
    assert_eq!(60, ui.fps());
}

#[test]
fn alloc_vec_zeroed() {
    let v = alloc_vec(5);
    assert_eq!(vec![0u8; 5], v);
    assert!(alloc_vec(0).is_empty());
}

#[test]
fn blink_phase_parity() {
    assert!(!blink_phase(700, 800));
    assert!(blink_phase(900, 800));
    assert!(!blink_phase(1700, 800));
    assert!(blink_phase(2500, 800));
}

#[test]
fn sort_files_stable_by_time() {
    let entries = vec![
        (String::from("c.png"), 5u128),
        (String::from("a.png"), 3u128),
        (String::from("b.png"), 5u128),
        (String::from("d.png"), 1u128),
    ];
    let sorted = sort_files_by_modified(entries);
    let names: Vec<String> = sorted.into_iter().map(|e| e.0).collect();
    assert_eq!(
        vec![
            String::from("d.png"),
            String::from("a.png"),
            String::from("c.png"),
            String::from("b.png"),
        ],
        names
    );
    assert!(sort_files_by_modified(Vec::new()).is_empty());
}

#[test]
fn expand_rgb_to_rgba_layout() {
    let rgb = vec![1, 2, 3, 4, 5, 6, 7, 8, 9, 10, 11, 12]; // two rows of two pixels
    let mut buffer = vec![9u8; 20]; // pitch 10: two padding bytes per row
    expand_rgb_to_rgba(&rgb, 2, 2, 10, &mut buffer);
    assert_eq!(
        vec![1, 2, 3, 255, 4, 5, 6, 255, 9, 9, 7, 8, 9, 255, 10, 11, 12, 255, 9, 9],
        buffer
    );
}
