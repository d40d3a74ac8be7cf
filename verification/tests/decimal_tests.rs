use frame_pipeline::decimal::{parse_i32, push_decimal};
use frame_pipeline::layout::{frame_path, frame_url};

fn decimal(n: i32) -> String {
    let mut out = String::new();
    push_decimal(&mut out, n);
    out
}

#[test]
fn reading_back_what_was_written_gives_the_number() {
    for n in -1200..1200 {
        assert_eq!(parse_i32(&decimal(n)), Some(n));
    }
    for n in [i32::MIN, i32::MIN + 1, -1_000_000_007, 999_999_999, i32::MAX - 1, i32::MAX] {
        assert_eq!(parse_i32(&decimal(n)), Some(n));
    }
}

#[test]
fn no_two_numbers_are_written_alike() {
    let mut seen = std::collections::HashSet::new();
    for n in -500..500 {
        assert!(seen.insert(decimal(n)));
    }
}

#[test]
fn no_two_frames_of_a_job_share_a_file_or_an_address() {
    let mut paths = std::collections::HashSet::new();
    let mut urls = std::collections::HashSet::new();
    for index in 0..250 {
        assert!(paths.insert(frame_path("downloads", "abc-123", index)));
        assert!(urls.insert(frame_url("frames.example.com", "uuid", "720p", index)));
    }
}
