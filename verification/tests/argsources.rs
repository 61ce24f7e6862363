use tenv::{expand_argfile_path, is_argfile_comment, reattach_marker, strip_argfile_comments};

#[test]
fn comment_lines_are_dropped_in_order() {
    let tokens = vec![
        "-e".to_string(),
        "X=1".to_string(),
        "#comment".to_string(),
        "--".to_string(),
    ];
    let r = strip_argfile_comments(tokens);
    assert_eq!(r, vec!["-e".to_string(), "X=1".to_string(), "--".to_string()]);
}

#[test]
fn only_leading_hash_marks_a_comment() {
    assert!(is_argfile_comment(&"#x".to_string()));
    assert!(!is_argfile_comment(&"x#y".to_string()));
    assert!(!is_argfile_comment(&"".to_string()));
}

#[test]
fn plain_token_passes_through() {
    assert_eq!(expand_argfile_path("plain".to_string()), "plain");
    assert_eq!(expand_argfile_path("".to_string()), "");
}

#[test]
fn marker_is_reattached_in_front() {
    assert_eq!(reattach_marker("/home/someone/flags.txt".to_string()), "@/home/someone/flags.txt");
    assert_eq!(reattach_marker("".to_string()), "@");
}

#[test]
fn marker_token_keeps_its_marker() {
    assert_eq!(
        expand_argfile_path("@/tmp/args.txt".to_string()),
        "@/tmp/args.txt"
    );
}
