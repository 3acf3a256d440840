use feedsync::video_id::{get_video_id, lookup_video_id};

#[test]
fn short_link_gives_first_path_segment() {
    assert_eq!(get_video_id("https://youtu.be/dQw4w9WgXcQ"), Some("dQw4w9WgXcQ".to_string()));
    assert_eq!(get_video_id("https://youtu.be/abc123?t=42"), Some("abc123".to_string()));
}

#[test]
fn watch_url_gives_reference_parameter() {
    assert_eq!(
        get_video_id("https://www.youtube.com/watch?v=XYZ&other=x"),
        Some("XYZ".to_string())
    );
    assert_eq!(
        get_video_id("https://example.com/watch?other=x&v=ABC&list=7"),
        Some("ABC".to_string())
    );
}

#[test]
fn first_reference_parameter_wins() {
    assert_eq!(get_video_id("https://host/watch?v=one&v=two"), Some("one".to_string()));
}

#[test]
fn reference_parameter_is_decoded() {
    assert_eq!(get_video_id("https://host/watch?v=a%20b"), Some("a b".to_string()));
}

#[test]
fn watch_url_without_reference_parameter_has_no_id() {
    assert_eq!(get_video_id("https://www.youtube.com/watch?other=x"), None);
    assert_eq!(get_video_id("https://www.youtube.com/watch"), None);
}

#[test]
fn empty_and_blank_text_have_no_id() {
    assert_eq!(get_video_id(""), None);
    assert_eq!(get_video_id("   \t"), None);
    assert!(matches!(lookup_video_id("  "), Ok(None)));
}

#[test]
fn unparsable_text_has_no_id() {
    assert_eq!(get_video_id("not a url"), None);
    assert!(lookup_video_id("not a url").is_err());
    assert!(lookup_video_id("http://[::1").is_err());
}

#[test]
fn host_that_is_not_a_domain_uses_reference_parameter() {
    assert_eq!(get_video_id("https://127.0.0.1/watch?v=abc"), Some("abc".to_string()));
    assert_eq!(get_video_id("https://[::1]/watch?x=1&v=def"), Some("def".to_string()));
    assert_eq!(get_video_id("file:///watch?v=ghi"), Some("ghi".to_string()));
    assert_eq!(get_video_id("https://127.0.0.1/watch?x=1"), None);
}

#[test]
fn identical_input_gives_identical_output() {
    let u = "https://www.youtube.com/watch?v=DEF";
    assert_eq!(get_video_id(u), get_video_id(u));
}
