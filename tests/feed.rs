use feedsync::feed::{parse_feed, FeedError};
use feedsync::string_set::StringSet;

const HEAD: &str = "<feed xmlns=\"http://www.w3.org/2005/Atom\" xmlns:yt=\"http://www.youtube.com/xml/schemas/2015\">";

fn doc(body: &str) -> String {
    format!("{}{}</feed>", HEAD, body)
}

#[test]
fn two_entries_by_identifier_and_by_link() {
    let text = doc(
        "<entry><yt:videoId>XYZ</yt:videoId><title>a</title></entry>\
         <entry><link rel=\"alternate\" href=\"https://example.com/watch?v=ABC\"/></entry>",
    );
    let urls = parse_feed(&text).ok().unwrap();
    assert_eq!(
        urls,
        vec![
            "https://www.youtube.com/watch?v=XYZ".to_string(),
            "https://example.com/watch?v=ABC".to_string()
        ]
    );
}

#[test]
fn blank_identifier_falls_through_to_link() {
    let text = doc(
        "<entry><yt:videoId>   </yt:videoId>\
         <link rel=\"alternate\" href=\"https://example.com/watch?v=ABC\"/></entry>",
    );
    assert_eq!(parse_feed(&text).ok().unwrap(), vec!["https://example.com/watch?v=ABC".to_string()]);
}

#[test]
fn identifier_text_is_trimmed() {
    let text = doc("<entry><yt:videoId>\n  Q1 \n</yt:videoId></entry>");
    assert_eq!(parse_feed(&text).ok().unwrap(), vec!["https://www.youtube.com/watch?v=Q1".to_string()]);
}

#[test]
fn identifier_wins_over_link() {
    let text = doc(
        "<entry><link rel=\"alternate\" href=\"https://example.com/x\"/>\
         <yt:videoId>ID7</yt:videoId></entry>",
    );
    assert_eq!(parse_feed(&text).ok().unwrap(), vec!["https://www.youtube.com/watch?v=ID7".to_string()]);
}

#[test]
fn entry_without_either_is_dropped() {
    let text = doc(
        "<entry><link rel=\"self\" href=\"https://example.com/self\"/></entry>\
         <entry><link rel=\"alternate\" href=\"  \"/></entry>\
         <entry><videoId>NS</videoId></entry>",
    );
    assert_eq!(parse_feed(&text).ok().unwrap(), Vec::<String>::new());
}

#[test]
fn href_is_kept_verbatim() {
    let text = doc("<entry><link rel=\"alternate\" href=\" https://e.com/a \"/></entry>");
    assert_eq!(parse_feed(&text).ok().unwrap(), vec![" https://e.com/a ".to_string()]);
}

#[test]
fn elements_outside_the_feed_namespace_are_not_entries() {
    let text = "<feed><entry><link rel=\"alternate\" href=\"https://e.com/a\"/></entry></feed>";
    assert_eq!(parse_feed(text).ok().unwrap(), Vec::<String>::new());
}

#[test]
fn malformed_document_is_an_error() {
    assert!(matches!(parse_feed("<feed><entry></feed>"), Err(FeedError::Malformed(_))));
    assert!(matches!(parse_feed(""), Err(FeedError::Malformed(_))));
}

#[test]
fn candidates_are_deduplicated_across_feeds() {
    let a = doc("<entry><yt:videoId>A</yt:videoId></entry><entry><yt:videoId>B</yt:videoId></entry>");
    let b = doc("<entry><yt:videoId>B</yt:videoId></entry><entry><yt:videoId>A</yt:videoId></entry>");
    let mut set = StringSet::new();
    set.insert_all(parse_feed(&a).ok().unwrap());
    set.insert_all(parse_feed(&b).ok().unwrap());
    assert_eq!(set.len(), 2);
    assert!(set.contains("https://www.youtube.com/watch?v=A"));
    assert!(set.contains("https://www.youtube.com/watch?v=B"));
    assert_eq!(set.get(0), "https://www.youtube.com/watch?v=A");
}
