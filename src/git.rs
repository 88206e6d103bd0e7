use core::marker::PhantomData;
use vstd::prelude::*;
use vstd::string::*;

use crate::segment::{seg_views, Color, Segment, SegmentView};
use crate::status::{parse_status, status_reading};
use crate::theme::{GitPalette, GitScheme};

verus! {

/// A snapshot of a repository's working-tree status.
#[derive(Clone, Debug)]
pub struct GitStats {
    pub untracked: u32,
    pub conflicted: u32,
    pub non_staged: u32,
    pub ahead: Option<u32>,
    pub behind: Option<u32>,
    pub staged: u32,
    pub branch_name: String,
}

/// The working tree has local changes: ahead and behind do not count.
pub open spec fn stats_dirty(s: GitStats) -> bool {
    s.untracked as int + s.conflicted as int + s.staged as int + s.non_staged as int > 0
}

impl GitStats {
    pub fn is_dirty(&self) -> (r: bool)
        ensures
            r == (self.untracked as int + self.conflicted as int + self.staged as int
                + self.non_staged as int > 0),
            r == stats_dirty(*self),
    {
        self.untracked > 0 || self.conflicted > 0 || self.staged > 0 || self.non_staged > 0
    }
}

/// Whether a snapshot is dirty depends on its four local counts alone, never
/// on how far it is ahead of or behind its upstream.
pub proof fn lemma_dirty_ignores_upstream(a: GitStats, b: GitStats)
    requires
        a.untracked == b.untracked,
        a.conflicted == b.conflicted,
        a.staged == b.staged,
        a.non_staged == b.non_staged,
    ensures
        stats_dirty(a) == stats_dirty(b),
{
}

/// Why a repository that exists could not be queried.
#[derive(Clone, Debug)]
pub enum GitError {
    /// The status source could not be run or failed.
    QueryFailed(String),
    /// The status source answered with text of an unexpected shape.
    Malformed(String),
}

/// The detail that an error carries.
pub open spec fn error_detail(e: GitError) -> Seq<char> {
    match e {
        GitError::QueryFailed(d) => d@,
        GitError::Malformed(d) => d@,
    }
}

/// What kind of error it is, in words.
pub open spec fn error_label(e: GitError) -> Seq<char> {
    match e {
        GitError::QueryFailed(_) => seq!['q', 'u', 'e', 'r', 'y', ' ', 'f', 'a', 'i', 'l', 'e', 'd'],
        GitError::Malformed(_) => seq![
            'm', 'a', 'l', 'f', 'o', 'r', 'm', 'e', 'd', ' ', 's', 't', 'a', 't', 'u', 's',
        ],
    }
}

/// The human-readable description of an error: its kind, then its detail
/// when it has one.
pub open spec fn error_description(e: GitError) -> Seq<char> {
    if error_detail(e).len() == 0 {
        error_label(e)
    } else {
        error_label(e) + seq![':', ' '] + error_detail(e)
    }
}

impl GitError {
    /// The error's kind, then its detail when it has one; never empty.
    pub fn description(&self) -> (r: String)
        ensures
            r@ == error_description(*self),
            r@.len() > 0,
    {
        let (mut r, d) = match self {
            GitError::QueryFailed(d) => (String::from_str("query failed"), d),
            GitError::Malformed(d) => (String::from_str("malformed status"), d),
        };
        proof {
            reveal_strlit("query failed");
            reveal_strlit("malformed status");
            reveal_strlit(": ");
        }
        assert(r@ =~= error_label(*self));
        if !d.as_str().is_empty() {
            r.append(": ");
            r.append(d.as_str());
        } else {
            assert(d@.len() == 0);
        }
        assert(r@ =~= error_description(*self));
        r
    }
}

/// What looking for and querying a repository gave.
#[derive(Debug)]
pub enum RepoLookup {
    /// No repository above the working directory: nothing is shown.
    Absent,
    /// A repository was found and queried.
    Found(Result<GitStats, GitError>),
}

/// Which of the optional indicators are shown besides staged and not-staged counts.
#[derive(Clone, Copy, Debug, PartialEq, Eq, Structural)]
pub struct GitIndicators {
    pub ahead: bool,
    pub behind: bool,
    pub untracked: bool,
    pub conflicted: bool,
}

pub open spec fn digit_char(d: nat) -> char {
    seq!['0', '1', '2', '3', '4', '5', '6', '7', '8', '9'][d as int]
}

/// The decimal numeral of `n`, without sign or leading zeros.
pub open spec fn decimal(n: nat) -> Seq<char>
    decreases n,
{
    if n < 10 {
        seq![digit_char(n)]
    } else {
        decimal(n / 10) + seq![digit_char(n % 10)]
    }
}

pub open spec fn staged_symbol() -> Seq<char> {
    seq!['\u{2714}']
}

pub open spec fn notstaged_symbol() -> Seq<char> {
    seq!['\u{270E}']
}

pub open spec fn ahead_symbol() -> Seq<char> {
    seq!['\u{2B06}']
}

pub open spec fn behind_symbol() -> Seq<char> {
    seq!['\u{2B07}']
}

pub open spec fn untracked_symbol() -> Seq<char> {
    seq!['?']
}

pub open spec fn conflicted_symbol() -> Seq<char> {
    seq!['\u{273C}']
}

/// The text of a count indicator: the bare symbol for one, the numeral and symbol otherwise.
pub open spec fn count_text(count: nat, symbol: Seq<char>) -> Seq<char> {
    if count == 1 {
        seq![' '] + symbol + seq![' ']
    } else {
        seq![' '] + decimal(count) + symbol + seq![' ']
    }
}

/// The segments of a count indicator: none for zero, else one.
#[verifier::opaque]
pub open spec fn count_segments(count: nat, symbol: Seq<char>, fg: Color, bg: Color) -> Seq<
    SegmentView,
> {
    if count == 0 {
        seq![]
    } else {
        seq![SegmentView { text: count_text(count, symbol), fg, bg }]
    }
}

/// The segments of an optional count: none when the count is absent.
pub open spec fn opt_count_segments(
    count: Option<u32>,
    symbol: Seq<char>,
    fg: Color,
    bg: Color,
) -> Seq<SegmentView> {
    match count {
        Some(n) => count_segments(n as nat, symbol, fg, bg),
        None => seq![],
    }
}

/// The segments of an indicator that may be switched off.
#[verifier::opaque]
pub open spec fn shown_segments(
    enabled: bool,
    count: Option<u32>,
    symbol: Seq<char>,
    fg: Color,
    bg: Color,
) -> Seq<SegmentView> {
    if enabled {
        opt_count_segments(count, symbol, fg, bg)
    } else {
        seq![]
    }
}

/// The branch segment: colored by whether the tree is dirty.
pub open spec fn branch_segment(s: GitStats, p: GitPalette) -> SegmentView {
    SegmentView {
        text: seq![' '] + s.branch_name@ + seq![' '],
        fg: if stats_dirty(s) {
            p.repo_dirty_fg
        } else {
            p.repo_clean_fg
        },
        bg: if stats_dirty(s) {
            p.repo_dirty_bg
        } else {
            p.repo_clean_bg
        },
    }
}

/// The segments shown for a repository that was queried successfully.
pub open spec fn stats_segments(s: GitStats, p: GitPalette, ind: GitIndicators) -> Seq<
    SegmentView,
> {
    seq![branch_segment(s, p)]
        + shown_segments(ind.ahead, s.ahead, ahead_symbol(), p.ahead_fg, p.ahead_bg)
        + shown_segments(ind.behind, s.behind, behind_symbol(), p.behind_fg, p.behind_bg)
        + count_segments(s.staged as nat, staged_symbol(), p.staged_fg, p.staged_bg)
        + count_segments(s.non_staged as nat, notstaged_symbol(), p.notstaged_fg, p.notstaged_bg)
        + shown_segments(
        ind.untracked,
        Some(s.untracked),
        untracked_symbol(),
        p.untracked_fg,
        p.untracked_bg,
    ) + shown_segments(
        ind.conflicted,
        Some(s.conflicted),
        conflicted_symbol(),
        p.conflicted_fg,
        p.conflicted_bg,
    )
}

/// The single segment shown for a repository that could not be queried.
pub open spec fn error_segment(e: GitError, p: GitPalette) -> SegmentView {
    SegmentView {
        text: seq!['g', 'i', 't', ' ', 'e', 'r', 'r', 'o', 'r', ':', ' '] + error_description(e),
        fg: p.repo_error_fg,
        bg: p.repo_error_bg,
    }
}

/// Everything the git module shows for a lookup.
pub open spec fn lookup_segments(l: RepoLookup, p: GitPalette, ind: GitIndicators) -> Seq<
    SegmentView,
> {
    match l {
        RepoLookup::Absent => seq![],
        RepoLookup::Found(Ok(s)) => stats_segments(s, p, ind),
        RepoLookup::Found(Err(e)) => seq![error_segment(e, p)],
    }
}

/// Appends the segment of an optional indicator, when it is enabled.
fn push_shown(
    segments: &mut Vec<Segment>,
    enabled: bool,
    count: Option<u32>,
    symbol: &str,
    fg: Color,
    bg: Color,
)
    ensures
        seg_views(final(segments)@) == seg_views(old(segments)@) + shown_segments(
            enabled,
            count,
            symbol@,
            fg,
            bg,
        ),
{
    reveal(shown_segments);
    if enabled {
        if let Some(n) = count {
            push_count(segments, n, symbol, fg, bg);
            return ;
        }
    }
    assert(seg_views(final(segments)@) =~= seg_views(old(segments)@) + seq![]);
}

/// The numeral of one decimal digit.
fn digit_str(d: u32) -> (r: &'static str)
    requires
        d < 10,
    ensures
        r@ == seq![digit_char(d as nat)],
{
    proof {
        reveal_strlit("0");
        reveal_strlit("1");
        reveal_strlit("2");
        reveal_strlit("3");
        reveal_strlit("4");
        reveal_strlit("5");
        reveal_strlit("6");
        reveal_strlit("7");
        reveal_strlit("8");
        reveal_strlit("9");
    }
    let r = match d {
        0 => "0",
        1 => "1",
        2 => "2",
        3 => "3",
        4 => "4",
        5 => "5",
        6 => "6",
        7 => "7",
        8 => "8",
        _ => "9",
    };
    assert(r@ =~= seq![digit_char(d as nat)]);
    r
}

/// The decimal numeral of `n`.
fn decimal_string(n: u32) -> (r: String)
    ensures
        r@ == decimal(n as nat),
    decreases n,
{
    if n < 10 {
        String::from_str(digit_str(n))
    } else {
        let mut r = decimal_string(n / 10);
        r.append(digit_str(n % 10));
        r
    }
}

/// Appends the segment of one count indicator, if any.
fn push_count(segments: &mut Vec<Segment>, count: u32, symbol: &str, fg: Color, bg: Color)
    ensures
        seg_views(final(segments)@) == seg_views(old(segments)@) + count_segments(
            count as nat,
            symbol@,
            fg,
            bg,
        ),
{
    reveal(count_segments);
    if count == 0 {
        assert(seg_views(final(segments)@) =~= seg_views(old(segments)@) + seq![]);
        return ;
    }
    let mut text = String::from_str(" ");
    if count != 1 {
        let num = decimal_string(count);
        text.append(num.as_str());
    }
    text.append(symbol);
    text.append(" ");
    proof {
        reveal_strlit(" ");
    }
    assert(text@ =~= count_text(count as nat, symbol@));
    let seg = Segment::simple(text, fg, bg);
    segments.push(seg);
    assert(seg_views(final(segments)@) =~= seg_views(old(segments)@) + count_segments(
        count as nat,
        symbol@,
        fg,
        bg,
    ));
}

/// The git module, bound to a color theme.
pub struct Git<S> {
    pub scheme: PhantomData<S>,
    pub indicators: GitIndicators,
}

impl<S: GitScheme> Git<S> {
    /// A git module that shows the branch and the staged and not-staged counts only.
    pub fn new() -> (r: Git<S>)
        ensures
            r.indicators == (GitIndicators {
                ahead: false,
                behind: false,
                untracked: false,
                conflicted: false,
            }),
    {
        Git {
            scheme: PhantomData,
            indicators: GitIndicators { ahead: false, behind: false, untracked: false, conflicted: false },
        }
    }

    /// Reads the repository status that the status command printed: the
    /// branch line, then one line per file that is not clean.
    pub fn get_git_data(&mut self, output: &Vec<u8>) -> (r: Result<GitStats, GitError>)
        ensures
            status_reading(output@, r),
            *final(self) == *old(self),
    {
        parse_status(output)
    }

    /// A git module that also shows the chosen optional indicators.
    pub fn with_indicators(indicators: GitIndicators) -> (r: Git<S>)
        ensures
            r.indicators == indicators,
    {
        Git { scheme: PhantomData, indicators }
    }

    /// Appends what the module shows for `lookup`, in order: nothing when no
    /// repository was found; one error segment when it could not be queried;
    /// else the branch, then the enabled counts. Earlier segments are kept.
    pub fn append_git_segments(&self, lookup: &RepoLookup, segments: &mut Vec<Segment>)
        ensures
            seg_views(final(segments)@) == seg_views(old(segments)@) + lookup_segments(
                *lookup,
                S::palette_spec(),
                self.indicators,
            ),
    {
        let p = S::git_palette();
        match lookup {
            RepoLookup::Absent => {
                assert(seg_views(final(segments)@) =~= seg_views(old(segments)@) + seq![]);
            },
            RepoLookup::Found(Err(e)) => {
                let mut text = String::from_str("git error: ");
                let d = e.description();
                text.append(d.as_str());
                proof {
                    reveal_strlit("git error: ");
                }
                assert(text@ =~= error_segment(*e, p).text);
                segments.push(Segment::simple(text, p.repo_error_fg, p.repo_error_bg));
                assert(seg_views(final(segments)@) =~= seg_views(old(segments)@) + seq![
                    error_segment(*e, p),
                ]);
            },
            RepoLookup::Found(Ok(st)) => {
                self.append_stats(st, &p, segments);
            },
        }
    }

    fn append_stats(&self, st: &GitStats, p: &GitPalette, segments: &mut Vec<Segment>)
        ensures
            seg_views(final(segments)@) == seg_views(old(segments)@) + stats_segments(
                *st,
                *p,
                self.indicators,
            ),
    {
        let dirty = st.is_dirty();
        let (fg, bg) = if dirty {
            (p.repo_dirty_fg, p.repo_dirty_bg)
        } else {
            (p.repo_clean_fg, p.repo_clean_bg)
        };
        let mut text = String::from_str(" ");
        text.append(st.branch_name.as_str());
        text.append(" ");
        proof {
            reveal_strlit(" ");
            reveal_strlit("\u{2B06}");
            reveal_strlit("\u{2B07}");
            reveal_strlit("\u{2714}");
            reveal_strlit("\u{270E}");
            reveal_strlit("?");
            reveal_strlit("\u{273C}");
            assert("\u{2B06}"@ =~= ahead_symbol());
            assert("\u{2B07}"@ =~= behind_symbol());
            assert("\u{2714}"@ =~= staged_symbol());
            assert("\u{270E}"@ =~= notstaged_symbol());
            assert("?"@ =~= untracked_symbol());
            assert("\u{273C}"@ =~= conflicted_symbol());
        }
        assert(text@ =~= branch_segment(*st, *p).text);
        segments.push(Segment::simple(text, fg, bg));
        assert(seg_views(segments@) =~= seg_views(old(segments)@) + seq![branch_segment(*st, *p)]);
        let ind = self.indicators;
        push_shown(segments, ind.ahead, st.ahead, "\u{2B06}", p.ahead_fg, p.ahead_bg);
        push_shown(segments, ind.behind, st.behind, "\u{2B07}", p.behind_fg, p.behind_bg);
        push_count(segments, st.staged, "\u{2714}", p.staged_fg, p.staged_bg);
        push_count(segments, st.non_staged, "\u{270E}", p.notstaged_fg, p.notstaged_bg);
        push_shown(segments, ind.untracked, Some(st.untracked), "?", p.untracked_fg, p.untracked_bg);
        push_shown(
            segments,
            ind.conflicted,
            Some(st.conflicted),
            "\u{273C}",
            p.conflicted_fg,
            p.conflicted_bg,
        );
        assert(seg_views(segments@) =~= seg_views(old(segments)@) + stats_segments(
            *st,
            *p,
            self.indicators,
        ));
    }
}

/// A repository that could not be queried shows exactly one segment, in the
/// error colors, holding the error's description: never empty, and opening
/// with the kind of the error.
pub proof fn lemma_query_failure_one_segment(e: GitError, p: GitPalette, ind: GitIndicators)
    ensures
        lookup_segments(RepoLookup::Found(Err(e)), p, ind).len() == 1,
        lookup_segments(RepoLookup::Found(Err(e)), p, ind)[0].fg == p.repo_error_fg,
        lookup_segments(RepoLookup::Found(Err(e)), p, ind)[0].bg == p.repo_error_bg,
        lookup_segments(RepoLookup::Found(Err(e)), p, ind)[0].text.skip(11) == error_description(e),
        error_description(e).len() > 0,
        error_description(e).take(error_label(e).len() as int) == error_label(e),
{
    let t = lookup_segments(RepoLookup::Found(Err(e)), p, ind)[0].text;
    assert(t.skip(11) =~= error_description(e));
    assert(error_description(e).take(error_label(e).len() as int) =~= error_label(e));
}

/// A clean snapshot shows its branch in the clean colors and, with the
/// optional indicators off, nothing else.
pub proof fn lemma_clean_branch_alone(s: GitStats, p: GitPalette)
    requires
        s.untracked == 0,
        s.conflicted == 0,
        s.staged == 0,
        s.non_staged == 0,
    ensures
        ({
            let ind = GitIndicators { ahead: false, behind: false, untracked: false, conflicted: false };
            let out = lookup_segments(RepoLookup::Found(Ok(s)), p, ind);
            &&& out.len() == 1
            &&& out[0].fg == p.repo_clean_fg
            &&& out[0].bg == p.repo_clean_bg
            &&& out[0].text == seq![' '] + s.branch_name@ + seq![' ']
        }),
{
    reveal(count_segments);
    reveal(shown_segments);
    let ind = GitIndicators { ahead: false, behind: false, untracked: false, conflicted: false };
    assert(lookup_segments(RepoLookup::Found(Ok(s)), p, ind) =~= seq![branch_segment(s, p)]);
}

} // verus!
