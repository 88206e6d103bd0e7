use powerline::git::{Git, GitError, GitIndicators, GitStats, RepoLookup};
use powerline::segment::{Color, Segment};
use powerline::theme::{GitScheme, SimpleTheme};

fn stats(untracked: u32, conflicted: u32, non_staged: u32, staged: u32) -> GitStats {
    GitStats {
        untracked,
        conflicted,
        non_staged,
        ahead: None,
        behind: None,
        staged,
        branch_name: "master".to_string(),
    }
}

fn render(lookup: RepoLookup) -> Vec<Segment> {
    let git = Git::<SimpleTheme>::new();
    let mut segments = Vec::new();
    git.append_git_segments(&lookup, &mut segments);
    segments
}

fn texts(segments: &[Segment]) -> Vec<String> {
    segments.iter().map(|s| s.text.clone()).collect()
}

#[test]
fn clean_stats_are_not_dirty() {
    assert!(!stats(0, 0, 0, 0).is_dirty());
}

#[test]
fn each_count_makes_stats_dirty() {
    assert!(stats(1, 0, 0, 0).is_dirty());
    assert!(stats(0, 1, 0, 0).is_dirty());
    assert!(stats(0, 0, 1, 0).is_dirty());
    assert!(stats(0, 0, 0, 1).is_dirty());
}

#[test]
fn ahead_and_behind_do_not_make_stats_dirty() {
    let mut s = stats(0, 0, 0, 0);
    s.ahead = Some(4);
    s.behind = Some(7);
    assert!(!s.is_dirty());
}

#[test]
fn largest_counts_do_not_overflow() {
    assert!(stats(u32::MAX, u32::MAX, u32::MAX, u32::MAX).is_dirty());
}

#[test]
fn count_of_one_renders_bare_symbol() {
    let segs = render(RepoLookup::Found(Ok(stats(0, 0, 0, 1))));
    assert_eq!(texts(&segs), vec![" master ".to_string(), " \u{2714} ".to_string()]);
}

#[test]
fn count_of_two_renders_numeral_and_symbol() {
    let segs = render(RepoLookup::Found(Ok(stats(0, 0, 2, 0))));
    assert_eq!(texts(&segs), vec![" master ".to_string(), " 2\u{270E} ".to_string()]);
}

#[test]
fn count_of_zero_renders_no_segment() {
    let segs = render(RepoLookup::Found(Ok(stats(3, 0, 0, 0))));
    assert_eq!(texts(&segs), vec![" master ".to_string()]);
}

#[test]
fn multi_digit_count_renders_all_digits() {
    let segs = render(RepoLookup::Found(Ok(stats(0, 0, 0, 1203))));
    assert_eq!(segs[1].text, " 1203\u{2714} ");
}

#[test]
fn dirty_branch_with_two_staged() {
    let p = SimpleTheme::git_palette();
    let segs = render(RepoLookup::Found(Ok(stats(0, 0, 0, 2))));
    assert_eq!(segs.len(), 2);
    assert_eq!(segs[0].text, " master ");
    assert_eq!((segs[0].fg, segs[0].bg), (p.repo_dirty_fg, p.repo_dirty_bg));
    assert_eq!(segs[1].text, " 2\u{2714} ");
    assert_eq!((segs[1].fg, segs[1].bg), (p.staged_fg, p.staged_bg));
}

#[test]
fn clean_branch_has_only_branch_segment() {
    let p = SimpleTheme::git_palette();
    let segs = render(RepoLookup::Found(Ok(stats(0, 0, 0, 0))));
    assert_eq!(segs.len(), 1);
    assert_eq!(segs[0].text, " master ");
    assert_eq!((segs[0].fg, segs[0].bg), (p.repo_clean_fg, p.repo_clean_bg));
    assert_eq!((segs[0].fg, segs[0].bg), (Color(0), Color(148)));
}

#[test]
fn query_failure_renders_one_error_segment() {
    let p = SimpleTheme::git_palette();
    let err = GitError::QueryFailed("not a git repository".to_string());
    let segs = render(RepoLookup::Found(Err(err)));
    assert_eq!(segs.len(), 1);
    assert_eq!(segs[0].text, "git error: query failed: not a git repository");
    assert_eq!((segs[0].fg, segs[0].bg), (p.repo_error_fg, p.repo_error_bg));
}

#[test]
fn malformed_status_renders_one_error_segment() {
    let segs = render(RepoLookup::Found(Err(GitError::Malformed("bad header".to_string()))));
    assert_eq!(texts(&segs), vec!["git error: malformed status: bad header".to_string()]);
}

#[test]
fn absent_repository_renders_nothing() {
    assert!(render(RepoLookup::Absent).is_empty());
}

#[test]
fn earlier_segments_are_kept() {
    let git = Git::<SimpleTheme>::new();
    let mut segments = vec![Segment::simple("user".to_string(), Color(1), Color(2))];
    git.append_git_segments(&RepoLookup::Found(Ok(stats(0, 0, 0, 0))), &mut segments);
    assert_eq!(texts(&segments), vec!["user".to_string(), " master ".to_string()]);
}

#[test]
fn disabled_indicators_are_not_rendered() {
    let mut s = stats(2, 3, 0, 0);
    s.ahead = Some(1);
    s.behind = Some(5);
    let segs = render(RepoLookup::Found(Ok(s)));
    assert_eq!(texts(&segs), vec![" master ".to_string()]);
}

#[test]
fn enabled_indicators_render_in_order() {
    let git = Git::<SimpleTheme>::with_indicators(GitIndicators {
        ahead: true,
        behind: true,
        untracked: true,
        conflicted: true,
    });
    let mut s = stats(2, 1, 1, 0);
    s.ahead = Some(3);
    s.behind = None;
    let mut segs = Vec::new();
    git.append_git_segments(&RepoLookup::Found(Ok(s)), &mut segs);
    assert_eq!(
        texts(&segs),
        vec![
            " master ".to_string(),
            " 3\u{2B06} ".to_string(),
            " \u{270E} ".to_string(),
            " 2? ".to_string(),
            " \u{273C} ".to_string(),
        ]
    );
}

#[test]
fn error_description_names_kind_and_detail() {
    assert_eq!(GitError::QueryFailed("x".to_string()).description(), "query failed: x");
    assert_eq!(GitError::Malformed("y".to_string()).description(), "malformed status: y");
}

#[test]
fn error_without_detail_still_describes_its_kind() {
    let segs = render(RepoLookup::Found(Err(GitError::QueryFailed(String::new()))));
    assert_eq!(texts(&segs), vec!["git error: query failed".to_string()]);
    assert_eq!(GitError::Malformed(String::new()).description(), "malformed status");
}
