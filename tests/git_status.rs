use powerline::git::{Git, GitError, GitStats};
use powerline::theme::SimpleTheme;

fn read(text: &[u8]) -> Result<GitStats, GitError> {
    let mut git = Git::<SimpleTheme>::new();
    git.get_git_data(&text.to_vec())
}

fn counts(s: &GitStats) -> (u32, u32, u32, u32) {
    (s.untracked, s.conflicted, s.staged, s.non_staged)
}

fn is_malformed(r: Result<GitStats, GitError>) -> bool {
    match r {
        Err(GitError::Malformed(d)) => !d.is_empty(),
        _ => false,
    }
}

#[test]
fn branch_without_upstream() {
    let s = read(b"## master\n").unwrap();
    assert_eq!(s.branch_name, "master");
    assert_eq!((s.ahead, s.behind), (None, None));
    assert_eq!(counts(&s), (0, 0, 0, 0));
    assert!(!s.is_dirty());
}

#[test]
fn every_file_falls_in_one_category() {
    let out = b"## master...origin/master [ahead 2, behind 3]\n M a.rs\nM  b.rs\nMM c.rs\n?? d\nUU e\nA  f\n!! g\nDU h\n";
    let s = read(out).unwrap();
    assert_eq!(s.branch_name, "master");
    assert_eq!((s.ahead, s.behind), (Some(2), Some(3)));
    assert_eq!(counts(&s), (1, 2, 3, 1));
    assert!(s.is_dirty());
}

#[test]
fn upstream_in_step_counts_zero() {
    let s = read(b"## main...origin/main\n").unwrap();
    assert_eq!(s.branch_name, "main");
    assert_eq!((s.ahead, s.behind), (Some(0), Some(0)));
}

#[test]
fn behind_only_without_final_newline() {
    let s = read(b"## feature...origin/feature [behind 12]").unwrap();
    assert_eq!(s.branch_name, "feature");
    assert_eq!((s.ahead, s.behind), (Some(0), Some(12)));
}

#[test]
fn detached_head_keeps_its_label() {
    let s = read(b"## HEAD (no branch)\n?? x\n").unwrap();
    assert_eq!(s.branch_name, "HEAD (no branch)");
    assert_eq!(counts(&s), (1, 0, 0, 0));
}

#[test]
fn non_ascii_branch_name() {
    let s = read("## f\u{fc}nf\n".as_bytes()).unwrap();
    assert_eq!(s.branch_name, "f\u{fc}nf");
}

#[test]
fn largest_ahead_count_fits() {
    let s = read(b"## m...o/m [ahead 4294967295]\n").unwrap();
    assert_eq!(s.ahead, Some(u32::MAX));
}

#[test]
fn empty_output_is_malformed() {
    assert!(is_malformed(read(b"")));
}

#[test]
fn missing_branch_line_is_malformed() {
    assert!(is_malformed(read(b" M a.rs\n")));
    assert!(is_malformed(read(b"#")));
}

#[test]
fn short_file_line_is_malformed() {
    assert!(is_malformed(read(b"## master\nM\n")));
    assert!(is_malformed(read(b"## master\n\n")));
}

#[test]
fn count_without_numeral_is_malformed() {
    assert!(is_malformed(read(b"## m...o/m [ahead x]\n")));
}

#[test]
fn count_beyond_u32_is_malformed() {
    assert!(is_malformed(read(b"## m...o/m [behind 4294967296]\n")));
}

#[test]
fn branch_name_not_utf8_is_malformed() {
    assert!(is_malformed(read(b"## \xff\xfe\n")));
}
