use frame_pipeline::decimal::push_decimal;
use frame_pipeline::layout::{
    frame_file_name, frame_path, frame_url, job_dir, manifest_path, movie_name, output_path,
    push_frame_file_name,
};

fn decimal(n: i32) -> String {
    let mut out = String::new();
    push_decimal(&mut out, n);
    out
}

#[test]
fn decimal_notation_of_small_numbers() {
    assert_eq!(decimal(0), "0");
    assert_eq!(decimal(7), "7");
    assert_eq!(decimal(10), "10");
    assert_eq!(decimal(409), "409");
    assert_eq!(decimal(1000), "1000");
}

#[test]
fn decimal_notation_of_negative_numbers() {
    assert_eq!(decimal(-1), "-1");
    assert_eq!(decimal(-250), "-250");
}

#[test]
fn decimal_notation_at_the_limits() {
    assert_eq!(decimal(i32::MAX), "2147483647");
    assert_eq!(decimal(i32::MIN), "-2147483648");
}

#[test]
fn decimal_notation_agrees_with_formatting() {
    for n in -300..300 {
        assert_eq!(decimal(n), format!("{}", n));
    }
    for n in [99_999, 100_000, 123_456_789, -123_456_789, 2_000_000_000] {
        assert_eq!(decimal(n), format!("{}", n));
    }
}

#[test]
fn decimal_is_appended_to_what_is_there() {
    let mut out = String::from("frame ");
    push_decimal(&mut out, 42);
    assert_eq!(out, "frame 42");
    push_frame_file_name(&mut out, 3);
    assert_eq!(out, "frame 42video3.jpeg");
}

#[test]
fn frame_file_is_named_after_its_index() {
    assert_eq!(frame_file_name(0), "video0.jpeg");
    assert_eq!(frame_file_name(15), "video15.jpeg");
    assert_eq!(frame_file_name(-7), "video-7.jpeg");
}

#[test]
fn frame_url_follows_the_template() {
    assert_eq!(
        frame_url("frames.example.com", "0c3f-77aa", "1280x720", 5),
        "https://frames.example.com/0c3f-77aa/1280x720/video5.jpeg"
    );
    assert_eq!(frame_url("h", "s", "r", 0), "https://h/s/r/video0.jpeg");
    assert_eq!(frame_url("", "", "", 12), "https://///video12.jpeg");
}

#[test]
fn storage_layout_places_every_file_of_a_job() {
    assert_eq!(job_dir("downloads", "abc-123"), "downloads/abc-123");
    assert_eq!(frame_path("downloads", "abc-123", 12), "downloads/abc-123/video12.jpeg");
    assert_eq!(manifest_path("downloads", "abc-123"), "downloads/abc-123/list.txt");
    assert_eq!(output_path("downloads", "abc-123"), "downloads/abc-123.mp4");
}

#[test]
fn frame_path_differs_for_every_index() {
    let first = frame_path("root", "movie", 1);
    let second = frame_path("root", "movie", 11);
    assert_ne!(first, second);
    assert_eq!(first, "root/movie/video1.jpeg");
    assert_eq!(second, "root/movie/video11.jpeg");
}

#[test]
fn movie_is_named_by_the_trailing_path_segment() {
    assert_eq!(movie_name("https://site.com/en/abc-123"), "abc-123");
    assert_eq!(movie_name("a/b"), "b");
    assert_eq!(movie_name("/x"), "x");
}

#[test]
fn movie_name_of_an_identifier_without_slash_is_the_identifier() {
    assert_eq!(movie_name("abc-123"), "abc-123");
}

#[test]
fn movie_name_is_empty_after_a_trailing_slash() {
    assert_eq!(movie_name("https://site.com/abc/"), "");
    assert_eq!(movie_name("/"), "");
    assert_eq!(movie_name(""), "");
}

#[test]
fn movie_name_keeps_characters_outside_ascii() {
    assert_eq!(movie_name("https://site.com/映画/名前-é"), "名前-é");
}

#[test]
fn movie_name_agrees_with_splitting_from_the_right() {
    for url in ["", "/", "a", "a/", "/a", "a/b/c", "//", "a//b", "https://x.com/y?z=1/2"] {
        assert_eq!(movie_name(url), url.rsplit('/').next().unwrap());
    }
}
