use vstd::prelude::*;
use vstd::string::*;
use vstd::utf8::{decode_utf8, valid_utf8};

use crate::git::{error_detail, GitError, GitStats};

verus! {

/// The first place at or after `i` where `pat` occurs in `s`.
pub open spec fn find_from(s: Seq<u8>, pat: Seq<u8>, i: int) -> Option<int>
    decreases s.len() - i,
{
    if i < 0 || i >= s.len() || i + pat.len() > s.len() {
        None
    } else if s.subrange(i, i + pat.len()) == pat {
        Some(i)
    } else {
        find_from(s, pat, i + 1)
    }
}

pub proof fn lemma_find_from_bounds(s: Seq<u8>, pat: Seq<u8>, i: int)
    ensures
        find_from(s, pat, i) matches Some(k) ==> i <= k && k + pat.len() <= s.len()
            && s.subrange(k, k + pat.len()) == pat,
    decreases s.len() - i,
{
    if !(i < 0 || i >= s.len() || i + pat.len() > s.len()) && s.subrange(i, i + pat.len()) != pat {
        lemma_find_from_bounds(s, pat, i + 1);
    }
}

pub open spec fn newline() -> Seq<u8> {
    seq![10u8]
}

/// The lines of `b` from byte `start` on, each without its newline.
pub open spec fn lines_from(b: Seq<u8>, start: int) -> Seq<Seq<u8>>
    decreases b.len() - start,
{
    if start < 0 || start >= b.len() {
        seq![]
    } else {
        match find_from(b, newline(), start) {
            Some(e) => if start <= e < b.len() {
                seq![b.subrange(start, e)] + lines_from(b, e + 1)
            } else {
                seq![]
            },
            None => seq![b.subrange(start, b.len() as int)],
        }
    }
}

/// Where `pat` first occurs in `s` at or after `from`.
fn find_pat(s: &Vec<u8>, pat: &Vec<u8>, from: usize) -> (r: Option<usize>)
    requires
        pat@.len() > 0,
    ensures
        match r {
            Some(k) => find_from(s@, pat@, from as int) == Some(k as int),
            None => find_from(s@, pat@, from as int) is None,
        },
{
    let mut i = from;
    while i < s.len()
        invariant
            from <= i,
            pat@.len() > 0,
            find_from(s@, pat@, from as int) == find_from(s@, pat@, i as int),
        decreases s.len() - i,
    {
        if pat.len() > s.len() - i {
            return None;
        }
        let mut j: usize = 0;
        let mut same = true;
        while j < pat.len() && same
            invariant
                i + pat@.len() <= s@.len(),
                s@.len() <= usize::MAX,
                j <= pat@.len(),
                same ==> s@.subrange(i as int, i + j) =~= pat@.take(j as int),
                !same ==> j < pat@.len() && s@[i + j] != pat@[j as int],
            decreases pat.len() - j + (if same { 1int } else { 0int }),
        {
            if s[i + j] != pat[j] {
                same = false;
            } else {
                assert(s@.subrange(i as int, i + j + 1) =~= s@.subrange(i as int, i + j).push(
                    s@[i + j],
                ));
                assert(pat@.take(j + 1) =~= pat@.take(j as int).push(pat@[j as int]));
                j = j + 1;
            }
        }
        if same {
            assert(pat@.take(pat@.len() as int) =~= pat@);
            return Some(i);
        }
        assert(s@.subrange(i as int, i + pat@.len()) != pat@) by {
            assert(s@.subrange(i as int, i + pat@.len())[j as int] != pat@[j as int]);
        }
        i = i + 1;
    }
    None
}

pub open spec fn is_digit(c: u8) -> bool {
    48 <= c <= 57
}

/// How many decimal digits stand in `s` from `i` on.
pub open spec fn digit_run(s: Seq<u8>, i: int) -> nat
    decreases s.len() - i,
{
    if 0 <= i < s.len() && is_digit(s[i]) {
        1 + digit_run(s, i + 1)
    } else {
        0
    }
}

/// The value of a decimal numeral.
pub open spec fn digits_value(d: Seq<u8>) -> nat
    decreases d.len(),
{
    if d.len() == 0 {
        0
    } else {
        digits_value(d.drop_last()) * 10 + (d.last() - 48) as nat
    }
}

/// The number that follows the first `key` at or after `from`: zero when `key`
/// does not occur, nothing when no digit follows it.
pub open spec fn count_after(s: Seq<u8>, key: Seq<u8>, from: int) -> Option<nat> {
    match find_from(s, key, from) {
        None => Some(0),
        Some(k) => {
            let st = k + key.len();
            let n = digit_run(s, st);
            if n == 0 {
                None
            } else {
                Some(digits_value(s.subrange(st, st + n)))
            }
        },
    }
}

/// The numeral that starts at `start`, if there is one and it fits in a `u32`.
fn parse_number(s: &Vec<u8>, start: usize) -> (r: Option<u32>)
    ensures
        r == (if digit_run(s@, start as int) == 0 || digits_value(
            s@.subrange(start as int, start + digit_run(s@, start as int)),
        ) > u32::MAX {
            None::<u32>
        } else {
            Some(
                digits_value(s@.subrange(start as int, start + digit_run(s@, start as int))) as u32,
            )
        }),
{
    let mut i = start;
    let mut val: u32 = 0;
    let mut big = false;
    if start >= s.len() {
        return None;
    }
    assert(s@.subrange(start as int, start as int) =~= Seq::<u8>::empty());
    while i < s.len() && s[i] >= 48 && s[i] <= 57
        invariant
            start <= i <= s@.len(),
            digit_run(s@, start as int) == (i - start) + digit_run(s@, i as int),
            big ==> digits_value(s@.subrange(start as int, i as int)) > u32::MAX,
            !big ==> val == digits_value(s@.subrange(start as int, i as int)),
        decreases s.len() - i,
    {
        let d = s[i] - 48;
        let ghost prev = s@.subrange(start as int, i as int);
        assert(s@.subrange(start as int, i + 1).drop_last() =~= prev);
        assert(s@.subrange(start as int, i + 1).last() == s@[i as int]);
        if !big {
            if val > (u32::MAX - d as u32) / 10 {
                big = true;
            } else {
                val = val * 10 + d as u32;
            }
        }
        i = i + 1;
    }
    assert(digit_run(s@, i as int) == 0);
    if i == start || big {
        None
    } else {
        Some(val)
    }
}

/// The bytes of `s` from `a` to `b`.
fn copy_range(s: &Vec<u8>, a: usize, b: usize) -> (r: Vec<u8>)
    requires
        a <= b <= s@.len(),
    ensures
        r@ == s@.subrange(a as int, b as int),
{
    let mut r: Vec<u8> = Vec::new();
    let mut i = a;
    while i < b
        invariant
            a <= i <= b <= s@.len(),
            r@ == s@.subrange(a as int, i as int),
        decreases b - i,
    {
        r.push(s[i]);
        i = i + 1;
        assert(r@ =~= s@.subrange(a as int, i as int));
    }
    r
}

/// `"## "`, which opens the branch line.
pub open spec fn header_prefix() -> Seq<u8> {
    seq![35u8, 35u8, 32u8]
}

/// `"..."`, which parts the branch from its upstream.
pub open spec fn dots() -> Seq<u8> {
    seq![46u8, 46u8, 46u8]
}

/// `"ahead "`
pub open spec fn ahead_key() -> Seq<u8> {
    seq![97u8, 104u8, 101u8, 97u8, 100u8, 32u8]
}

/// `"behind "`
pub open spec fn behind_key() -> Seq<u8> {
    seq![98u8, 101u8, 104u8, 105u8, 110u8, 100u8, 32u8]
}

pub open spec fn header_ok(h: Seq<u8>) -> bool {
    h.len() >= 3 && h.take(3) == header_prefix()
}

/// The branch name: what follows `"## "`, up to the `"..."` before the upstream.
pub open spec fn branch_bytes(h: Seq<u8>) -> Seq<u8> {
    match find_from(h, dots(), 3) {
        Some(k) => h.subrange(3, k),
        None => h.subrange(3, h.len() as int),
    }
}

/// The count of commits that the header gives after `key`: no count when the
/// branch has no upstream, zero when the upstream is named without it, and
/// nothing at all when `key` stands without a numeral.
pub open spec fn upstream_count(h: Seq<u8>, key: Seq<u8>) -> Option<Option<nat>> {
    match find_from(h, dots(), 3) {
        None => Some(None),
        Some(k) => match count_after(h, key, k + 3) {
            None => None,
            Some(n) => Some(Some(n)),
        },
    }
}

pub open spec fn upstream_ok(h: Seq<u8>, key: Seq<u8>) -> bool {
    match upstream_count(h, key) {
        None => false,
        Some(None) => true,
        Some(Some(n)) => n <= u32::MAX,
    }
}

pub open spec fn upstream_value(h: Seq<u8>, key: Seq<u8>) -> Option<u32> {
    match upstream_count(h, key) {
        Some(Some(n)) => Some(n as u32),
        _ => None,
    }
}

/// The one category that a file of the status falls in.
#[derive(Clone, Copy, Debug, PartialEq, Eq, Structural)]
pub enum FileState {
    Untracked,
    Conflicted,
    Staged,
    NotStaged,
    Unchanged,
}

/// Both sides changed the file, or one changed and the other deleted it.
pub open spec fn is_conflict(x: u8, y: u8) -> bool {
    (x == 68 && y == 68) || (x == 65 && y == 85) || (x == 85 && y == 68) || (x == 85 && y == 65)
        || (x == 68 && y == 85) || (x == 65 && y == 65) || (x == 85 && y == 85)
}

/// The category of a file from its two status letters: the index side `x`
/// and the working-tree side `y`.
pub open spec fn file_state(x: u8, y: u8) -> FileState {
    if x == 63 && y == 63 {
        FileState::Untracked
    } else if is_conflict(x, y) {
        FileState::Conflicted
    } else if x == 33 {
        FileState::Unchanged
    } else if x != 32 {
        FileState::Staged
    } else if y != 32 {
        FileState::NotStaged
    } else {
        FileState::Unchanged
    }
}

/// How many of the file lines fall in category `st`.
pub open spec fn tally(ls: Seq<Seq<u8>>, st: FileState) -> nat
    decreases ls.len(),
{
    if ls.len() == 0 {
        0
    } else {
        tally(ls.drop_last(), st) + if file_state(ls.last()[0], ls.last()[1]) == st {
            1nat
        } else {
            0nat
        }
    }
}

pub open spec fn status_header(out: Seq<u8>) -> Seq<u8> {
    lines_from(out, 0)[0]
}

pub open spec fn status_files(out: Seq<u8>) -> Seq<Seq<u8>> {
    lines_from(out, 0).skip(1)
}

/// The output has the expected shape: a branch line, then one line of at
/// least two status letters per file.
pub open spec fn status_wellformed(out: Seq<u8>) -> bool {
    &&& out.len() <= u32::MAX
    &&& lines_from(out, 0).len() >= 1
    &&& header_ok(status_header(out))
    &&& upstream_ok(status_header(out), ahead_key())
    &&& upstream_ok(status_header(out), behind_key())
    &&& forall|i: int| 0 <= i < status_files(out).len() ==> #[trigger] status_files(out)[i].len() >= 2
}

/// The text that the bytes `b` encode as UTF-8, if they are valid UTF-8.
pub open spec fn utf8_text(b: Seq<u8>) -> Option<Seq<char>> {
    if valid_utf8(b) {
        Some(decode_utf8(b))
    } else {
        None
    }
}

/// Relies on `String::from_utf8`: it succeeds exactly on valid UTF-8 and then
/// holds the characters that the bytes encode.
#[verifier::external_body]
fn string_from_utf8(b: Vec<u8>) -> (r: Option<String>)
    ensures
        match r {
            Some(t) => valid_utf8(b@) && t@ == decode_utf8(b@),
            None => !valid_utf8(b@),
        },
{
    String::from_utf8(b).ok()
}

fn classify(x: u8, y: u8) -> (r: FileState)
    ensures
        r == file_state(x, y),
{
    if x == 63 && y == 63 {
        FileState::Untracked
    } else if (x == 68 && y == 68) || (x == 65 && y == 85) || (x == 85 && y == 68) || (x == 85
        && y == 65) || (x == 68 && y == 85) || (x == 65 && y == 65) || (x == 85 && y == 85) {
        FileState::Conflicted
    } else if x == 33 {
        FileState::Unchanged
    } else if x != 32 {
        FileState::Staged
    } else if y != 32 {
        FileState::NotStaged
    } else {
        FileState::Unchanged
    }
}

/// The count after `key` in the header `h`: `None` where it is malformed or
/// does not fit in a `u32`.
fn header_count(h: &Vec<u8>, key: &Vec<u8>) -> (r: Option<Option<u32>>)
    requires
        key@.len() > 0,
    ensures
        match r {
            None => !upstream_ok(h@, key@),
            Some(v) => upstream_ok(h@, key@) && v == upstream_value(h@, key@),
        },
{
    let dots_v: Vec<u8> = vec![46u8, 46u8, 46u8];
    assert(dots_v@ =~= dots());
    let hl = h.len();
    proof {
        lemma_find_from_bounds(h@, dots(), 3);
    }
    match find_pat(h, &dots_v, 3) {
        None => Some(None),
        Some(k) => {
            assert(k + 3 <= hl);
            proof {
                lemma_find_from_bounds(h@, key@, k + 3);
            }
            match find_pat(h, key, k + 3) {
                None => Some(Some(0)),
                Some(j) => {
                    assert(j + key@.len() <= hl);
                    match parse_number(h, j + key.len()) {
                        None => None,
                        Some(n) => Some(Some(n)),
                    }
                },
            }
        },
    }
}

fn malformed(detail: &str) -> (r: GitError)
    requires
        detail@.len() > 0,
    ensures
        r is Malformed,
        error_detail(r) == detail@,
{
    GitError::Malformed(String::from_str(detail))
}

/// `r` is what reading the status output `out` gives: the stats it describes
/// when it is well formed and names its branch in UTF-8, else a `Malformed` error.
pub open spec fn status_reading(out: Seq<u8>, r: Result<GitStats, GitError>) -> bool {
    match r {
        Ok(st) => {
            &&& status_wellformed(out)
            &&& utf8_text(branch_bytes(status_header(out))) == Some(st.branch_name@)
            &&& st.ahead == upstream_value(status_header(out), ahead_key())
            &&& st.behind == upstream_value(status_header(out), behind_key())
            &&& st.untracked == tally(status_files(out), FileState::Untracked)
            &&& st.conflicted == tally(status_files(out), FileState::Conflicted)
            &&& st.staged == tally(status_files(out), FileState::Staged)
            &&& st.non_staged == tally(status_files(out), FileState::NotStaged)
        },
        Err(e) => {
            &&& e is Malformed
            &&& error_detail(e).len() > 0
            &&& !(status_wellformed(out) && utf8_text(branch_bytes(status_header(out))) is Some)
        },
    }
}

/// Reads the output of `git status --porcelain --branch`.
pub(crate) fn parse_status(out: &Vec<u8>) -> (r: Result<GitStats, GitError>)
    ensures
        status_reading(out@, r),
{
    if out.len() as u64 > 0xFFFF_FFFFu64 {
        proof {
            reveal_strlit("status output too long");
        }
        return Err(malformed("status output too long"));
    }
    if out.len() == 0 {
        proof {
            reveal_strlit("empty status");
        }
        return Err(malformed("empty status"));
    }
    let nl: Vec<u8> = vec![10u8];
    assert(nl@ =~= newline());
    proof {
        lemma_find_from_bounds(out@, newline(), 0);
    }
    let (hend, fstart) = match find_pat(out, &nl, 0) {
        Some(e) => (e, e + 1),
        None => (out.len(), out.len()),
    };
    proof {
        assert(lines_from(out@, 0) == seq![out@.subrange(0, hend as int)] + lines_from(
            out@,
            fstart as int,
        ));
        assert(lines_from(out@, 0).skip(1) =~= lines_from(out@, fstart as int));
    }
    let h = copy_range(out, 0, hend);
    assert(h@ == status_header(out@));
    if h.len() < 3 || h[0] != 35 || h[1] != 35 || h[2] != 32 {
        assert(!header_ok(h@)) by {
            if h@.len() >= 3 {
                assert(h@.take(3)[0] == h@[0] && h@.take(3)[1] == h@[1] && h@.take(3)[2] == h@[2]);
            }
        }
        proof {
            reveal_strlit("missing branch line");
        }
        return Err(malformed("missing branch line"));
    }
    assert(h@.take(3) =~= header_prefix());
    let ahead_v: Vec<u8> = vec![97u8, 104u8, 101u8, 97u8, 100u8, 32u8];
    let behind_v: Vec<u8> = vec![98u8, 101u8, 104u8, 105u8, 110u8, 100u8, 32u8];
    assert(ahead_v@ =~= ahead_key());
    assert(behind_v@ =~= behind_key());
    let ahead = match header_count(&h, &ahead_v) {
        Some(v) => v,
        None => {
            proof {
                reveal_strlit("bad ahead count");
            }
            return Err(malformed("bad ahead count"));
        },
    };
    let behind = match header_count(&h, &behind_v) {
        Some(v) => v,
        None => {
            proof {
                reveal_strlit("bad behind count");
            }
            return Err(malformed("bad behind count"));
        },
    };
    let dots_v: Vec<u8> = vec![46u8, 46u8, 46u8];
    assert(dots_v@ =~= dots());
    proof {
        lemma_find_from_bounds(h@, dots(), 3);
    }
    let bend = match find_pat(&h, &dots_v, 3) {
        Some(k) => k,
        None => h.len(),
    };
    let name_bytes = copy_range(&h, 3, bend);
    assert(name_bytes@ == branch_bytes(h@));
    let branch_name = match string_from_utf8(name_bytes) {
        Some(t) => t,
        None => {
            proof {
                reveal_strlit("branch name is not UTF-8");
            }
            return Err(malformed("branch name is not UTF-8"));
        },
    };
    let ghost files = status_files(out@);
    let ghost mut done: Seq<Seq<u8>> = seq![];
    let mut untracked: u32 = 0;
    let mut conflicted: u32 = 0;
    let mut staged: u32 = 0;
    let mut non_staged: u32 = 0;
    let mut start = fstart;
    assert(done + lines_from(out@, start as int) =~= files);
    while start < out.len()
        invariant
            fstart <= start,
            nl@ == newline(),
            files == status_files(out@),
            out@.len() <= u32::MAX,
            done + lines_from(out@, start as int) == files,
            done.len() <= start,
            forall|i: int| 0 <= i < done.len() ==> #[trigger] done[i].len() >= 2,
            untracked == tally(done, FileState::Untracked),
            conflicted == tally(done, FileState::Conflicted),
            staged == tally(done, FileState::Staged),
            non_staged == tally(done, FileState::NotStaged),
            untracked <= done.len(),
            conflicted <= done.len(),
            staged <= done.len(),
            non_staged <= done.len(),
        decreases out.len() - start,
    {
        proof {
            lemma_find_from_bounds(out@, newline(), start as int);
        }
        let (e, next) = match find_pat(out, &nl, start) {
            Some(e) => (e, e + 1),
            None => (out.len(), out.len()),
        };
        let ghost line = out@.subrange(start as int, e as int);
        assert(lines_from(out@, start as int) == seq![line] + lines_from(out@, next as int));
        assert(files[done.len() as int] == line);
        if e - start < 2 {
            assert(line.len() < 2);
            assert(status_files(out@)[done.len() as int].len() < 2);
            proof {
                reveal_strlit("short file entry");
            }
            return Err(malformed("short file entry"));
        }
        let st = classify(out[start], out[start + 1]);
        assert(line[0] == out@[start as int] && line[1] == out@[start + 1]);
        let ghost nd = done.push(line);
        assert(nd.drop_last() =~= done);
        match st {
            FileState::Untracked => {
                untracked = untracked + 1;
            },
            FileState::Conflicted => {
                conflicted = conflicted + 1;
            },
            FileState::Staged => {
                staged = staged + 1;
            },
            FileState::NotStaged => {
                non_staged = non_staged + 1;
            },
            FileState::Unchanged => {},
        }
        proof {
            assert(nd + lines_from(out@, next as int) =~= done + lines_from(out@, start as int));
            done = nd;
        }
        start = next;
    }
    assert(done =~= files);
    Ok(GitStats { untracked, conflicted, non_staged, ahead, behind, staged, branch_name })
}

} // verus!
