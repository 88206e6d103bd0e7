use powerline::prompt::Prompt;
use powerline::search::{search_step, SearchStep};
use powerline::segment::{Color, Segment};

fn parts(p: &[&str]) -> Vec<String> {
    p.iter().map(|s| s.to_string()).collect()
}

fn run_search(cwd: &[&str], marked: &[Vec<String>]) -> (Option<Vec<String>>, usize) {
    let mut candidate = parts(cwd);
    let mut probes = 0;
    loop {
        probes += 1;
        let has_git = marked.contains(&candidate);
        match search_step(candidate, has_git) {
            SearchStep::Found(d) => return (Some(d), probes),
            SearchStep::Probe(p) => candidate = p,
            SearchStep::NotFound => return (None, probes),
        }
    }
}

#[test]
fn search_finds_the_only_marked_ancestor() {
    let (found, probes) = run_search(&["home", "me", "proj", "src", "deep"], &[parts(&["home", "me", "proj"])]);
    assert_eq!(found, Some(parts(&["home", "me", "proj"])));
    assert_eq!(probes, 3);
}

#[test]
fn search_finds_marked_working_directory() {
    let (found, probes) = run_search(&["a", "b"], &[parts(&["a", "b"])]);
    assert_eq!(found, Some(parts(&["a", "b"])));
    assert_eq!(probes, 1);
}

#[test]
fn search_finds_marked_filesystem_root() {
    let (found, _) = run_search(&["a", "b", "c"], &[parts(&[])]);
    assert_eq!(found, Some(parts(&[])));
}

#[test]
fn search_without_repository_ends_at_root() {
    let (found, probes) = run_search(&["a", "b", "c", "d"], &[parts(&["x"])]);
    assert_eq!(found, None);
    assert_eq!(probes, 5);
}

#[test]
fn step_at_root_without_git_is_not_found() {
    assert!(matches!(search_step(Vec::new(), false), SearchStep::NotFound));
}

#[test]
fn step_moves_to_parent() {
    match search_step(parts(&["a", "b"]), false) {
        SearchStep::Probe(p) => assert_eq!(p, parts(&["a"])),
        _ => panic!("expected a probe of the parent"),
    }
}

fn seg(t: &str) -> Segment {
    Segment::simple(t.to_string(), Color(1), Color(2))
}

fn texts(segments: &[Segment]) -> Vec<String> {
    segments.iter().map(|s| s.text.clone()).collect()
}

#[test]
fn prompt_keeps_module_order() {
    let mut prompt = Prompt::new();
    prompt.add_module_output(vec![seg("user")]);
    prompt.add_module_output(vec![]);
    prompt.add_module_output(vec![seg("cwd1"), seg("cwd2")]);
    assert_eq!(texts(&prompt.segments()), vec!["user", "cwd1", "cwd2"]);
}

#[test]
fn disabling_a_module_keeps_the_others() {
    let mut all = Prompt::new();
    all.add_module_output(vec![seg("user")]);
    all.add_module_output(vec![seg(" master "), seg(" 2\u{2714} ")]);
    all.add_module_output(vec![seg("$")]);
    let mut without_git = Prompt::new();
    without_git.add_module_output(vec![seg("user")]);
    without_git.add_module_output(vec![seg("$")]);
    assert_eq!(texts(&all.segments()), vec!["user", " master ", " 2\u{2714} ", "$"]);
    assert_eq!(texts(&without_git.segments()), vec!["user", "$"]);
}

#[test]
fn empty_prompt_has_no_segments() {
    assert!(Prompt::new().segments().is_empty());
}

#[test]
fn duplicate_keeps_text_and_colors() {
    let s = Segment::simple("x".to_string(), Color(3), Color(4));
    let d = s.duplicate();
    assert_eq!((d.text, d.fg, d.bg), ("x".to_string(), Color(3), Color(4)));
}
