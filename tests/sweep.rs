use feedsync::sweep::part_file_pattern;

#[test]
fn pattern_names_part_files_of_the_directory() {
    assert_eq!(part_file_pattern("/home/u/videos"), "/home/u/videos/*.part");
    assert_eq!(part_file_pattern("/home/u/videos/"), "/home/u/videos//*.part");
}

#[test]
fn pattern_uses_forward_slashes() {
    assert_eq!(part_file_pattern("C:\\videos\\new"), "C:/videos/new/*.part");
}

#[test]
fn pattern_selects_only_part_files() {
    let p = glob::Pattern::new(&part_file_pattern("/v")).unwrap();
    assert!(p.matches("/v/video1.part"));
    assert!(p.matches("/v/video3.part"));
    assert!(!p.matches("/v/video2.mp4"));
}
