//! What git is asked, and what its answers mean.

use chrono::{DateTime, FixedOffset};
use vstd::prelude::*;
use vstd::utf8::*;

use crate::text::{chars_of, decode_lossy, same_text, split_non_empty, trim};
use crate::timezone::{CommitInfo, CommitTime};

verus! {

/// What a finished git command left behind.
#[derive(Debug)]
pub struct CommandOutput {
    /// Whether the command exited successfully.
    pub success: bool,
    pub stdout: Vec<u8>,
}

/// The date and time that `line` denotes, if it denotes one: seconds since
/// 1970-01-01T00:00:00Z, nanoseconds within the second, and the offset in seconds
/// east of UTC.
pub uninterp spec fn parsed_datetime(line: Seq<char>) -> Option<(i64, u32, i32)>;

/// Calls chrono's `FromStr` of `DateTime<FixedOffset>`, which reads a relaxed form
/// of RFC 3339, and takes the result apart with `timestamp`,
/// `timestamp_subsec_nanos` and `local_minus_utc`. What comes back depends on the
/// text alone. Which texts are accepted, and which moment each denotes, is not
/// spelled out.
#[verifier::external_body]
fn parse_datetime(line: &str) -> (r: Option<(i64, u32, i32)>)
    ensures
        r == parsed_datetime(line@),
{
    let parsed = line.parse::<DateTime<FixedOffset>>().ok();
    parsed.map(|dt| (dt.timestamp(), dt.timestamp_subsec_nanos(), dt.offset().local_minus_utc()))
}

/// Whether `c` may start a numeric offset: a plus, a hyphen or the minus sign U+2212.
pub open spec fn is_sign(c: char) -> bool {
    c == '+' || c == '-' || c == '\u{2212}'
}

/// Whether `UTC` stands in `line` at `at`, in letters of either case.
pub open spec fn utc_at(line: Seq<char>, at: int) -> bool {
    &&& 0 <= at
    &&& at + 2 < line.len()
    &&& line[at] == 'U' || line[at] == 'u'
    &&& line[at + 1] == 'T' || line[at + 1] == 't'
    &&& line[at + 2] == 'C' || line[at + 2] == 'c'
}

/// Whether `line` names UTC: it holds `Z` or `UTC`, in letters of either case.
pub open spec fn names_utc(line: Seq<char>) -> bool {
    ||| line.contains('Z')
    ||| line.contains('z')
    ||| exists|at: int| utc_at(line, at)
}

/// The position of the last sign in `line`.
pub open spec fn last_sign(line: Seq<char>) -> Option<int>
    decreases line.len(),
{
    if line.len() == 0 {
        None
    } else if is_sign(line.last()) {
        Some(line.len() - 1)
    } else {
        last_sign(line.drop_last())
    }
}

/// The position of the sign that starts the offset at the end of a date: the last
/// sign, where it stands behind the time of day. A sign with no colon before it is
/// a part of the date.
pub open spec fn offset_sign(line: Seq<char>) -> Option<int> {
    match last_sign(line) {
        Some(at) => if line.take(at).contains(':') {
            Some(at)
        } else {
            None
        },
        None => None,
    }
}

/// The time zone that ends a date: its offset, the sign included. Without an
/// offset it is `Z` where the line names UTC, else unknown.
pub open spec fn timezone_part(line: Seq<char>) -> Seq<char> {
    match offset_sign(line) {
        Some(at) => line.skip(at),
        None => if names_utc(line) {
            "Z"@
        } else {
            "Unknown"@
        },
    }
}

/// Whether `c` is among the first `n` of `chars`.
fn holds_before(chars: &Vec<char>, n: usize, c: char) -> (r: bool)
    requires
        n <= chars.len(),
    ensures
        r == chars@.take(n as int).contains(c),
{
    for i in 0..n
        invariant
            n <= chars.len(),
            forall|j: int| 0 <= j < i ==> chars@[j] != c,
    {
        if chars[i] == c {
            assert(chars@.take(n as int)[i as int] == c);
            return true;
        }
    }
    false
}

/// Whether `UTC` stands in `chars`, in letters of either case.
fn holds_utc(chars: &Vec<char>) -> (r: bool)
    ensures
        r == exists|at: int| utc_at(chars@, at),
{
    let n: usize = chars.len();
    if n < 3 {
        return false;
    }
    for i in 0..n - 2
        invariant
            n == chars.len(),
            n >= 3,
            forall|j: int| 0 <= j < i ==> !utc_at(chars@, j),
    {
        if (chars[i] == 'U' || chars[i] == 'u') && (chars[i + 1] == 'T' || chars[i + 1] == 't') && (
        chars[i + 2] == 'C' || chars[i + 2] == 'c') {
            assert(utc_at(chars@, i as int));
            return true;
        }
    }
    false
}

/// The time zone that ends a date.
pub fn timezone_of(line: &str) -> (r: String)
    ensures
        r@ == timezone_part(line@),
{
    let chars = chars_of(line);
    let n: usize = chars.len();
    let mut end: usize = n;
    assert(line@.take(n as int) =~= line@);
    while end > 0 && chars[end - 1] != '+' && chars[end - 1] != '-' && chars[end - 1] != '\u{2212}'
        invariant
            end <= n,
            n == chars.len(),
            chars@ == line@,
            last_sign(line@) == last_sign(line@.take(end as int)),
        decreases end,
    {
        assert(line@.take(end as int).drop_last() =~= line@.take(end - 1));
        end -= 1;
    }
    if end > 0 && holds_before(&chars, end - 1, ':') {
        assert(line@.skip(end - 1) =~= line@.subrange(end - 1, n as int));
        return line.substring_char(end - 1, n).to_owned();
    }
    if holds_before(&chars, n, 'Z') || holds_before(&chars, n, 'z') || holds_utc(&chars) {
        "Z".to_owned()
    } else {
        "Unknown".to_owned()
    }
}

/// The commit that a line stands for, given what date it denotes.
pub open spec fn commit_of(line: Seq<char>, parsed: (i64, u32, i32)) -> crate::timezone::CommitView {
    crate::timezone::CommitView {
        datetime: CommitTime { timestamp: parsed.0, nanos: parsed.1, offset: parsed.2 },
        timezone: timezone_part(line),
    }
}

/// The commits that `lines` stand for, given what date each denotes: lines that
/// denote none are left out.
pub open spec fn commits_of(
    lines: Seq<Seq<char>>,
    parsed: Seq<Option<(i64, u32, i32)>>,
) -> Seq<crate::timezone::CommitView>
    decreases lines.len(),
{
    if lines.len() == 0 {
        Seq::empty()
    } else {
        let earlier = commits_of(lines.drop_last(), parsed.drop_last());
        match parsed.last() {
            Some(date) => earlier.push(commit_of(lines.last(), date)),
            None => earlier,
        }
    }
}

/// The lines of a log that are not empty, white space at its ends aside.
pub open spec fn log_lines(log: Seq<char>) -> Seq<Seq<char>> {
    crate::text::non_empty(crate::text::split(crate::text::trimmed(log), '\n'))
}

/// The commits listed in a log.
pub open spec fn logged_commits(log: Seq<char>) -> Seq<crate::timezone::CommitView> {
    commits_of(log_lines(log), log_lines(log).map_values(|line: Seq<char>| parsed_datetime(line)))
}

/// The views of a list of commits.
pub open spec fn commit_views(commits: Seq<CommitInfo>) -> Seq<crate::timezone::CommitView> {
    commits.map_values(|c: CommitInfo| c@)
}

/// Makes commits of lines and of the dates that they were found to denote.
pub fn collect_commits(lines: &Vec<String>, parsed: &Vec<Option<(i64, u32, i32)>>) -> (r: Vec<
    CommitInfo,
>)
    requires
        lines.len() == parsed.len(),
    ensures
        commit_views(r@) == commits_of(crate::text::strings(lines@), parsed@),
{
    let mut r: Vec<CommitInfo> = Vec::new();
    let ghost all = crate::text::strings(lines@);
    assert(commit_views(r@) =~= commits_of(all.take(0), parsed@.take(0)));
    for i in 0..lines.len()
        invariant
            lines.len() == parsed.len(),
            all == crate::text::strings(lines@),
            commit_views(r@) == commits_of(all.take(i as int), parsed@.take(i as int)),
    {
        assert(all.take(i + 1).drop_last() =~= all.take(i as int));
        assert(parsed@.take(i + 1).drop_last() =~= parsed@.take(i as int));
        if let Some(date) = parsed[i] {
            let datetime = CommitTime { timestamp: date.0, nanos: date.1, offset: date.2 };
            let timezone = timezone_of(&lines[i]);
            let ghost before = r@;
            r.push(CommitInfo { datetime, timezone });
            assert(commit_views(r@) =~= commit_views(before).push(
                commit_of(all[i as int], parsed@[i as int]->0),
            ));
        }
    }
    assert(all.take(lines@.len() as int) =~= all);
    assert(parsed@.take(lines@.len() as int) =~= parsed@);
    r
}

/// The lines of a log that are not empty, white space at its ends aside.
pub fn read_log(log: &str) -> (r: Vec<String>)
    ensures
        crate::text::strings(r@) == log_lines(log@),
{
    split_non_empty(trim(log), '\n')
}

/// The commits in the answer of `git log`: `None` where git could not be run
/// (`output` is `None`) or failed.
pub fn get_author_commits(output: Option<CommandOutput>) -> (r: Option<Vec<CommitInfo>>)
    ensures
        r is Some <==> output is Some && output->0.success,
        r is Some ==> commit_views(r->0@) == logged_commits(
            crate::text::utf8_lossy(output->0.stdout@),
        ),
        r is Some && valid_utf8(output->0.stdout@) ==> commit_views(r->0@) == logged_commits(
            decode_utf8(output->0.stdout@),
        ),
        r is Some ==> forall|i: int|
            0 <= i < r->0.len() ==> timezone_shaped(#[trigger] r->0@[i].timezone@),
{
    let output = match output {
        Some(output) => output,
        None => return None,
    };
    if !output.success {
        return None;
    }
    let log = decode_lossy(&output.stdout);
    let lines = read_log(&log);
    let ghost all = crate::text::strings(lines@);
    let mut parsed: Vec<Option<(i64, u32, i32)>> = Vec::new();
    for i in 0..lines.len()
        invariant
            all == crate::text::strings(lines@),
            parsed.len() == i,
            forall|j: int| 0 <= j < i ==> #[trigger] parsed@[j] == parsed_datetime(all[j]),
    {
        parsed.push(parse_datetime(&lines[i]));
        assert(all[i as int] == lines@[i as int]@);
    }
    assert(parsed@ =~= all.map_values(|line: Seq<char>| parsed_datetime(line)));
    let commits = collect_commits(&lines, &parsed);
    proof {
        lemma_shaped(all, parsed@);
        assert forall|i: int| 0 <= i < commits.len() implies timezone_shaped(
            #[trigger] commits@[i].timezone@,
        ) by {
            assert(commit_views(commits@)[i].timezone == commits@[i].timezone@);
        }
    }
    Some(commits)
}

/// The last sign of a line is a sign, with none after it; a line with any sign
/// has a last one.
proof fn lemma_last_sign(line: Seq<char>)
    ensures
        match last_sign(line) {
            Some(at) => 0 <= at < line.len() && is_sign(line[at]) && forall|j: int|
                at < j < line.len() ==> !is_sign(#[trigger] line[j]),
            None => forall|j: int| 0 <= j < line.len() ==> !is_sign(#[trigger] line[j]),
        },
    decreases line.len(),
{
    if line.len() > 0 {
        lemma_last_sign(line.drop_last());
        if !is_sign(line.last()) {
            assert forall|j: int|
                0 <= j < line.len() && (last_sign(line) is None || j > last_sign(
                    line,
                )->0) implies !is_sign(#[trigger] line[j]) by {
                if j < line.len() - 1 {
                    assert(line.drop_last()[j] == line[j]);
                }
            }
        }
    }
}

/// Whether a text may be a time zone: an offset, which starts with a sign and holds
/// no other, or `Z`, or unknown.
pub open spec fn timezone_shaped(timezone: Seq<char>) -> bool {
    ||| timezone == "Z"@
    ||| timezone == "Unknown"@
    ||| timezone.len() > 0 && is_sign(timezone[0]) && forall|j: int|
        0 < j < timezone.len() ==> !is_sign(#[trigger] timezone[j])
}

/// The time zone of every commit has the shape of one.
proof fn lemma_shaped(lines: Seq<Seq<char>>, parsed: Seq<Option<(i64, u32, i32)>>)
    requires
        lines.len() == parsed.len(),
    ensures
        forall|i: int|
            0 <= i < commits_of(lines, parsed).len() ==> timezone_shaped(
                (#[trigger] commits_of(lines, parsed)[i]).timezone,
            ),
    decreases lines.len(),
{
    if lines.len() > 0 {
        lemma_shaped(lines.drop_last(), parsed.drop_last());
        law_timezone_part(lines.last());
        let earlier = commits_of(lines.drop_last(), parsed.drop_last());
        assert forall|i: int| 0 <= i < commits_of(lines, parsed).len() implies timezone_shaped(
            (#[trigger] commits_of(lines, parsed)[i]).timezone,
        ) by {
            if i < earlier.len() {
                assert(commits_of(lines, parsed)[i] == earlier[i]);
            }
        }
    }
}

/// The time zone of a line is `Z`, unknown or an offset: the end of the line,
/// behind a colon, that starts with a sign and holds no other. It is an offset
/// exactly where a sign stands behind a colon, so never a piece of the date.
pub proof fn law_timezone_part(line: Seq<char>)
    ensures
        timezone_shaped(timezone_part(line)),
        match offset_sign(line) {
            Some(at) => {
                &&& 0 < at < line.len()
                &&& is_sign(line[at])
                &&& line.take(at).contains(':')
                &&& timezone_part(line) == line.subrange(at, line.len() as int)
            },
            None => forall|i: int, j: int|
                0 <= i < j < line.len() && #[trigger] line[i] == ':' ==> !is_sign(
                    #[trigger] line[j],
                ),
        },
{
    lemma_last_sign(line);
    match offset_sign(line) {
        Some(at) => {
            let part = timezone_part(line);
            assert(line.take(at).len() > 0);
            assert forall|j: int| 0 < j < part.len() implies !is_sign(#[trigger] part[j]) by {
                assert(part[j] == line[at + j]);
            }
            assert(line.subrange(at, line.len() as int) =~= part);
        },
        None => {
            assert forall|i: int, j: int|
                0 <= i < j < line.len() && #[trigger] line[i] == ':' implies !is_sign(
                #[trigger] line[j],
            ) by {
                if is_sign(line[j]) {
                    let at = last_sign(line)->0;
                    assert(line.take(at)[i] == ':');
                }
            }
        },
    }
}

/// The time zone of a date in UTC is `Z`: a line that names UTC and has no sign
/// behind a colon.
pub proof fn law_utc_timezone(line: Seq<char>)
    requires
        names_utc(line),
        forall|i: int, j: int|
            0 <= i < j < line.len() && #[trigger] line[i] == ':' ==> !is_sign(#[trigger] line[j]),
    ensures
        timezone_part(line) == "Z"@,
{
    law_timezone_part(line);
    if let Some(at) = offset_sign(line) {
        let i = choose|i: int| 0 <= i < line.take(at).len() && line.take(at)[i] == ':';
        assert(line[i] == ':');
        assert(is_sign(line[at]));
    }
}

/// A line of a log is never empty and holds no line break.
pub proof fn law_log_lines(log: Seq<char>)
    ensures
        forall|i: int|
            0 <= i < log_lines(log).len() ==> (#[trigger] log_lines(log)[i]).len() > 0
                && !log_lines(log)[i].contains('\n'),
{
    let pieces = crate::text::split(crate::text::trimmed(log), '\n');
    crate::text::law_split(crate::text::trimmed(log), '\n');
    assert forall|i: int| 0 <= i < log_lines(log).len() implies (#[trigger] log_lines(
        log,
    )[i]).len() > 0 && !log_lines(log)[i].contains('\n') by {
        let line = log_lines(log)[i];
        assert(log_lines(log).contains(line));
        crate::text::law_non_empty(pieces, line);
        let k = choose|k: int| 0 <= k < pieces.len() && pieces[k] == line;
        assert(!pieces[k].contains('\n'));
    }
}

/// Whether a text says `true`, white space at its ends aside.
pub open spec fn says_true(text: Seq<char>) -> bool {
    crate::text::trimmed(text) == "true"@
}

/// Whether a text says `true`, white space at its ends aside.
pub fn reads_true(text: &str) -> (r: bool)
    ensures
        r == says_true(text@),
{
    same_text(trim(text), "true")
}

/// Whether the answer to the question of `shallow_args` says that the repository
/// is shallow.
pub fn is_shallow_repo(stdout: &Vec<u8>) -> (r: bool)
    ensures
        r == says_true(crate::text::utf8_lossy(stdout@)),
        valid_utf8(stdout@) ==> r == says_true(decode_utf8(stdout@)),
{
    let text = decode_lossy(stdout);
    reads_true(&text)
}

/// The arguments with which git tells whether a repository is shallow.
pub open spec fn shallow_list() -> Seq<Seq<char>> {
    seq!["rev-parse"@, "--is-shallow-repository"@]
}

/// The arguments with which git tells whether a repository is shallow.
pub fn shallow_args() -> (r: Vec<String>)
    ensures
        crate::text::strings(r@) == shallow_list(),
{
    let r = vec!["rev-parse".to_owned(), "--is-shallow-repository".to_owned()];
    assert(crate::text::strings(r@) =~= shallow_list());
    r
}

/// The arguments with which git lists the commit dates of an author.
pub open spec fn log_list(author_email: Seq<char>) -> Seq<Seq<char>> {
    seq!["log"@, "--format=%aI"@, "--author"@, author_email]
}

/// The arguments with which git lists the commit dates of an author, in strict
/// ISO 8601 format.
pub fn log_args(author_email: &str) -> (r: Vec<String>)
    ensures
        crate::text::strings(r@) == log_list(author_email@),
{
    let r = vec![
        "log".to_owned(),
        "--format=%aI".to_owned(),
        "--author".to_owned(),
        author_email.to_owned(),
    ];
    assert(crate::text::strings(r@) =~= log_list(author_email@));
    r
}

/// The address from which a repository is cloned.
pub open spec fn clone_url(owner: Seq<char>, repo: Seq<char>) -> Seq<char> {
    "https://github.com/"@ + owner + "/"@ + repo + ".git"@
}

/// The arguments with which git clones a repository into `target`.
pub open spec fn clone_list(owner: Seq<char>, repo: Seq<char>, target: Seq<char>) -> Seq<Seq<char>> {
    seq![
        "clone"@,
        "--filter=blob:none"@,
        "--no-checkout"@,
        "--config"@,
        "credential.helper=reject"@,
        "--config"@,
        "http.lowSpeedLimit=1000"@,
        "--config"@,
        "http.lowSpeedTime=10"@,
        "--config"@,
        "core.askpass=echo"@,
        clone_url(owner, repo),
        target,
    ]
}

/// The arguments with which git clones the history of a repository into `target`:
/// no file contents, no checkout, no question for credentials, and giving up when
/// the transfer stays under 1000 bytes a second for 10 seconds.
pub fn clone_args(owner: &str, repo: &str, target: &str) -> (r: Vec<String>)
    ensures
        crate::text::strings(r@) == clone_list(owner@, repo@, target@),
{
    let url = "https://github.com/".to_owned().concat(owner).concat("/").concat(repo).concat(
        ".git",
    );
    let r = vec![
        "clone".to_owned(),
        "--filter=blob:none".to_owned(),
        "--no-checkout".to_owned(),
        "--config".to_owned(),
        "credential.helper=reject".to_owned(),
        "--config".to_owned(),
        "http.lowSpeedLimit=1000".to_owned(),
        "--config".to_owned(),
        "http.lowSpeedTime=10".to_owned(),
        "--config".to_owned(),
        "core.askpass=echo".to_owned(),
        url,
        target.to_owned(),
    ];
    assert(crate::text::strings(r@) =~= clone_list(owner@, repo@, target@));
    r
}

/// The arguments with which git completes a shallow clone.
pub open spec fn fetch_list() -> Seq<Seq<char>> {
    seq![
        "-c"@,
        "credential.helper=reject"@,
        "-c"@,
        "http.lowSpeedLimit=1000"@,
        "-c"@,
        "http.lowSpeedTime=10"@,
        "-c"@,
        "core.askpass=echo"@,
        "fetch"@,
        "--filter=blob:none"@,
        "--unshallow"@,
    ]
}

/// The arguments with which git completes the history of a shallow clone, under
/// the same conditions as `clone_args`.
pub fn fetch_args() -> (r: Vec<String>)
    ensures
        crate::text::strings(r@) == fetch_list(),
{
    let r = vec![
        "-c".to_owned(),
        "credential.helper=reject".to_owned(),
        "-c".to_owned(),
        "http.lowSpeedLimit=1000".to_owned(),
        "-c".to_owned(),
        "http.lowSpeedTime=10".to_owned(),
        "-c".to_owned(),
        "core.askpass=echo".to_owned(),
        "fetch".to_owned(),
        "--filter=blob:none".to_owned(),
        "--unshallow".to_owned(),
    ];
    assert(crate::text::strings(r@) =~= fetch_list());
    r
}

/// What follows the time of day from a sign on, with no other sign in it, is the time
/// zone: sign and rest as they stand.
pub proof fn law_offset_is_timezone(before: Seq<char>, sign: char, rest: Seq<char>)
    requires
        before.contains(':'),
        sign == '+' || sign == '-' || sign == '\u{2212}',
        forall|i: int|
            0 <= i < rest.len() ==> #[trigger] rest[i] != '+' && rest[i] != '-' && rest[i]
                != '\u{2212}',
    ensures
        timezone_part(before.push(sign) + rest) == seq![sign] + rest,
{
    let line = before.push(sign) + rest;
    let at = before.len() as int;
    assert(line[at] == sign);
    lemma_last_sign(line);
    assert(is_sign(line[at]));
    let last = last_sign(line)->0;
    assert(last == at) by {
        if last > at {
            assert(line[last] == rest[last - at - 1]);
        }
    }
    assert(line.take(at) =~= before);
    assert(line.skip(at) =~= seq![sign] + rest);
}

/// A line in which no sign follows a colon has no offset: its time zone is `Z` where
/// it holds a `Z` or the letters of `UTC`, large or small, and unknown in every other
/// case.
pub proof fn law_timezone_without_offset(line: Seq<char>)
    requires
        forall|i: int, j: int|
            0 <= i < j < line.len() && #[trigger] line[i] == ':' ==> #[trigger] line[j] != '+'
                && line[j] != '-' && line[j] != '\u{2212}',
    ensures
        timezone_part(line) == if line.contains('Z') || line.contains('z') || exists|i: int|
            0 <= i && i + 2 < line.len() && (#[trigger] line[i] == 'U' || line[i] == 'u') && (
            line[i + 1] == 'T' || line[i + 1] == 't') && (line[i + 2] == 'C' || line[i + 2] == 'c') {
            seq!['Z']
        } else {
            seq!['U', 'n', 'k', 'n', 'o', 'w', 'n']
        },
{
    law_timezone_part(line);
    reveal_strlit("Z");
    reveal_strlit("Unknown");
    assert("Z"@ =~= seq!['Z']);
    assert("Unknown"@ =~= seq!['U', 'n', 'k', 'n', 'o', 'w', 'n']);
    if let Some(at) = offset_sign(line) {
        let i = choose|i: int| 0 <= i < line.take(at).len() && line.take(at)[i] == ':';
        assert(line[i] == ':');
        assert(is_sign(line[at]));
    }
    if exists|at: int| utc_at(line, at) {
        let at = choose|at: int| utc_at(line, at);
        assert(line[at] == 'U' || line[at] == 'u');
    }
    if exists|i: int|
        0 <= i && i + 2 < line.len() && (#[trigger] line[i] == 'U' || line[i] == 'u') && (line[i + 1]
            == 'T' || line[i + 1] == 't') && (line[i + 2] == 'C' || line[i + 2] == 'c') {
        let i = choose|i: int|
            0 <= i && i + 2 < line.len() && (#[trigger] line[i] == 'U' || line[i] == 'u') && (
            line[i + 1] == 'T' || line[i + 1] == 't') && (line[i + 2] == 'C' || line[i + 2] == 'c');
        assert(utc_at(line, i));
    }
}

/// There are as many commits as lines that denote a date.
pub proof fn law_commit_count(lines: Seq<Seq<char>>, parsed: Seq<Option<(i64, u32, i32)>>)
    requires
        lines.len() == parsed.len(),
    ensures
        Set::new(|i: int| 0 <= i < parsed.len() && parsed[i] is Some).finite(),
        commits_of(lines, parsed).len() == Set::new(
            |i: int| 0 <= i < parsed.len() && parsed[i] is Some,
        ).len(),
    decreases lines.len(),
{
    let dated = Set::new(|i: int| 0 <= i < parsed.len() && parsed[i] is Some);
    if lines.len() == 0 {
        assert(dated =~= Set::empty());
    } else {
        let init = parsed.drop_last();
        let before = Set::new(|i: int| 0 <= i < init.len() && init[i] is Some);
        law_commit_count(lines.drop_last(), init);
        if parsed.last() is Some {
            assert(dated =~= before.insert(parsed.len() - 1));
        } else {
            assert(dated =~= before);
        }
    }
}

/// Every line that denotes a date gives one commit, with that date and the time zone
/// of that line; its place among the commits is the number of such lines before it.
pub proof fn law_commit_of_line(
    lines: Seq<Seq<char>>,
    parsed: Seq<Option<(i64, u32, i32)>>,
    i: int,
)
    requires
        lines.len() == parsed.len(),
        0 <= i < lines.len(),
        parsed[i] is Some,
    ensures
        ({
            let place = Set::new(|j: int| 0 <= j < i && parsed[j] is Some).len() as int;
            &&& place < commits_of(lines, parsed).len()
            &&& commits_of(lines, parsed)[place].datetime.timestamp == (parsed[i]->0).0
            &&& commits_of(lines, parsed)[place].datetime.nanos == (parsed[i]->0).1
            &&& commits_of(lines, parsed)[place].datetime.offset == (parsed[i]->0).2
            &&& commits_of(lines, parsed)[place].timezone == timezone_part(lines[i])
        }),
    decreases lines.len(),
{
    let n = lines.len() - 1;
    let earlier = commits_of(lines.drop_last(), parsed.drop_last());
    let before = Set::new(|j: int| 0 <= j < i && parsed[j] is Some);
    if i < n {
        law_commit_of_line(lines.drop_last(), parsed.drop_last(), i);
        assert(before =~= Set::new(|j: int| 0 <= j < i && parsed.drop_last()[j] is Some));
        assert(commits_of(lines, parsed)[before.len() as int] == earlier[before.len() as int]);
    } else {
        law_commit_count(lines.drop_last(), parsed.drop_last());
        let init = parsed.drop_last();
        assert(before =~= Set::new(|j: int| 0 <= j < init.len() && init[j] is Some));
    }
}

/// Where every line denotes a date, there is one commit for each line, in order, with
/// the time zone of that line; where none does, there is no commit.
pub proof fn law_every_dated_line(lines: Seq<Seq<char>>, parsed: Seq<Option<(i64, u32, i32)>>)
    requires
        lines.len() == parsed.len(),
    ensures
        (forall|i: int| 0 <= i < parsed.len() ==> #[trigger] parsed[i] is Some) ==> commits_of(
            lines,
            parsed,
        ).len() == lines.len() && forall|i: int|
            0 <= i < lines.len() ==> (#[trigger] commits_of(lines, parsed)[i]).timezone
                == timezone_part(lines[i]),
        (forall|i: int| 0 <= i < parsed.len() ==> #[trigger] parsed[i] is None) ==> commits_of(
            lines,
            parsed,
        ).len() == 0,
    decreases lines.len(),
{
    if lines.len() > 0 {
        let init = parsed.drop_last();
        let n = lines.len() - 1;
        law_every_dated_line(lines.drop_last(), init);
        assert(forall|i: int| 0 <= i < init.len() ==> #[trigger] init[i] == parsed[i]);
        if forall|i: int| 0 <= i < parsed.len() ==> #[trigger] parsed[i] is Some {
            assert(parsed[n] is Some);
            let earlier = commits_of(lines.drop_last(), init);
            assert forall|i: int| 0 <= i < lines.len() implies (#[trigger] commits_of(
                lines,
                parsed,
            )[i]).timezone == timezone_part(lines[i]) by {
                if i < n {
                    assert(commits_of(lines, parsed)[i] == earlier[i]);
                }
            }
        }
        if forall|i: int| 0 <= i < parsed.len() ==> #[trigger] parsed[i] is None {
            assert(parsed[n] is None);
        }
    }
}

/// The commits of two logs in a row are those of the one, then those of the other.
pub proof fn law_commits_in_parts(
    lines: Seq<Seq<char>>,
    parsed: Seq<Option<(i64, u32, i32)>>,
    more: Seq<Seq<char>>,
    more_parsed: Seq<Option<(i64, u32, i32)>>,
)
    requires
        lines.len() == parsed.len(),
        more.len() == more_parsed.len(),
    ensures
        commits_of(lines + more, parsed + more_parsed) == commits_of(lines, parsed) + commits_of(
            more,
            more_parsed,
        ),
    decreases more.len(),
{
    if more.len() == 0 {
        assert(lines + more =~= lines);
        assert(parsed + more_parsed =~= parsed);
        assert(commits_of(lines, parsed) + commits_of(more, more_parsed) =~= commits_of(
            lines,
            parsed,
        ));
    } else {
        assert((lines + more).drop_last() =~= lines + more.drop_last());
        assert((parsed + more_parsed).drop_last() =~= parsed + more_parsed.drop_last());
        law_commits_in_parts(lines, parsed, more.drop_last(), more_parsed.drop_last());
        assert(commits_of(lines + more, parsed + more_parsed) =~= commits_of(lines, parsed)
            + commits_of(more, more_parsed));
    }
}

/// The lines of a log are the non-empty pieces between its line breaks, white space
/// around the whole log aside; a log of white space has none.
pub proof fn law_log_lines_of(before: Seq<char>, core: Seq<char>, after: Seq<char>)
    requires
        forall|i: int| 0 <= i < before.len() ==> crate::text::white_space(#[trigger] before[i]),
        forall|i: int| 0 <= i < after.len() ==> crate::text::white_space(#[trigger] after[i]),
        core.len() > 0 ==> !crate::text::white_space(core[0]) && !crate::text::white_space(
            core.last(),
        ),
    ensures
        log_lines(before + core + after) == crate::text::non_empty(
            crate::text::split(core, '\n'),
        ),
        core.len() == 0 ==> log_lines(before + core + after).len() == 0,
{
    crate::text::law_trimmed_of(before, core, after);
    if core.len() == 0 {
        assert(!core.contains('\n'));
        crate::text::law_split_whole(core, '\n');
        crate::text::law_non_empty_parts(Seq::empty(), Seq::empty(), core);
    }
}

/// The commits listed in a log: one for each of its lines that denotes a date, at the
/// place given by the number of such lines before it, and no other.
pub proof fn law_logged_commits(log: Seq<char>, i: int)
    requires
        0 <= i < log_lines(log).len(),
        parsed_datetime(log_lines(log)[i]) is Some,
    ensures
        logged_commits(log).len() == Set::new(
            |j: int| 0 <= j < log_lines(log).len() && parsed_datetime(log_lines(log)[j]) is Some,
        ).len(),
        ({
            let place = Set::new(
                |j: int| 0 <= j < i && parsed_datetime(log_lines(log)[j]) is Some,
            ).len() as int;
            let commit = logged_commits(log)[place];
            &&& place < logged_commits(log).len()
            &&& parsed_datetime(log_lines(log)[i]) == Some(
                (commit.datetime.timestamp, commit.datetime.nanos, commit.datetime.offset),
            )
            &&& commit.timezone == timezone_part(log_lines(log)[i])
        }),
{
    let lines = log_lines(log);
    let parsed = lines.map_values(|line: Seq<char>| parsed_datetime(line));
    law_commit_count(lines, parsed);
    law_commit_of_line(lines, parsed, i);
    assert(Set::new(|j: int| 0 <= j < parsed.len() && parsed[j] is Some) =~= Set::new(
        |j: int| 0 <= j < lines.len() && parsed_datetime(lines[j]) is Some,
    ));
    assert(Set::new(|j: int| 0 <= j < i && parsed[j] is Some) =~= Set::new(
        |j: int| 0 <= j < i && parsed_datetime(lines[j]) is Some,
    ));
}

/// A log none of whose lines denotes a date lists no commit.
pub proof fn law_undated_log(log: Seq<char>)
    requires
        forall|i: int|
            0 <= i < log_lines(log).len() ==> parsed_datetime(#[trigger] log_lines(log)[i]) is None,
    ensures
        logged_commits(log).len() == 0,
{
    let lines = log_lines(log);
    let parsed = lines.map_values(|line: Seq<char>| parsed_datetime(line));
    assert forall|i: int| 0 <= i < parsed.len() implies #[trigger] parsed[i] is None by {
        assert(parsed[i] == parsed_datetime(lines[i]));
    }
    law_every_dated_line(lines, parsed);
}

/// The views of a list of commits are theirs, one for one.
pub proof fn law_commit_views(commits: Seq<CommitInfo>)
    ensures
        commit_views(commits).len() == commits.len(),
        forall|i: int|
            0 <= i < commits.len() ==> (#[trigger] commit_views(commits)[i]).timezone
                == commits[i].timezone@ && commit_views(commits)[i].datetime == commits[i].datetime,
{
}

/// A text says `true` exactly where it is these four letters with white space, or
/// nothing, around them.
pub proof fn law_says_true(text: Seq<char>)
    ensures
        says_true(text) <==> exists|before: Seq<char>, after: Seq<char>|
            #[trigger] (before + "true"@ + after) == text && (forall|i: int|
                0 <= i < before.len() ==> crate::text::white_space(#[trigger] before[i])) && (
            forall|i: int| 0 <= i < after.len() ==> crate::text::white_space(#[trigger] after[i])),
{
    reveal_strlit("true");
    let word = "true"@;
    if says_true(text) {
        crate::text::law_trimmed(text);
        let (from, to) = choose|from: int, to: int|
            #![trigger text.subrange(from, to)]
            0 <= from <= to <= text.len() && crate::text::trimmed(text) == text.subrange(from, to)
                && (forall|i: int|
                0 <= i < from || to <= i < text.len() ==> crate::text::white_space(
                    #[trigger] text[i],
                ));
        let before = text.take(from);
        let after = text.skip(to);
        assert(before + word + after =~= text) by {
            assert(text.subrange(from, to) =~= word);
            assert forall|i: int| 0 <= i < text.len() implies (before + word + after)[i]
                == text[i] by {
                if from <= i < to {
                    assert(text.subrange(from, to)[i - from] == text[i]);
                }
            }
        }
    }
    if exists|before: Seq<char>, after: Seq<char>|
        #[trigger] (before + word + after) == text && (forall|i: int|
            0 <= i < before.len() ==> crate::text::white_space(#[trigger] before[i])) && (forall|
            i: int,
        |
            0 <= i < after.len() ==> crate::text::white_space(#[trigger] after[i])) {
        let (before, after) = choose|before: Seq<char>, after: Seq<char>|
            #[trigger] (before + word + after) == text && (forall|i: int|
                0 <= i < before.len() ==> crate::text::white_space(#[trigger] before[i])) && (
            forall|i: int| 0 <= i < after.len() ==> crate::text::white_space(#[trigger] after[i]));
        assert(!crate::text::white_space('t'));
        assert(!crate::text::white_space('e'));
        crate::text::law_trimmed_of(before, word, after);
    }
}

/// Whatever is cloned, the options are the same: no file contents, no checkout, and
/// the settings for credentials and slow transfers; the last two arguments are the
/// address of the repository at GitHub and the directory asked for.
pub proof fn law_clone_list(owner: Seq<char>, repo: Seq<char>, target: Seq<char>)
    ensures
        clone_list(owner, repo, target).len() == 13,
        clone_list(owner, repo, target)[0] == "clone"@,
        clone_list(owner, repo, target)[1] == "--filter=blob:none"@,
        clone_list(owner, repo, target)[2] == "--no-checkout"@,
        clone_list(owner, repo, target)[3] == "--config"@,
        clone_list(owner, repo, target)[4] == "credential.helper=reject"@,
        clone_list(owner, repo, target)[5] == "--config"@,
        clone_list(owner, repo, target)[6] == "http.lowSpeedLimit=1000"@,
        clone_list(owner, repo, target)[7] == "--config"@,
        clone_list(owner, repo, target)[8] == "http.lowSpeedTime=10"@,
        clone_list(owner, repo, target)[9] == "--config"@,
        clone_list(owner, repo, target)[10] == "core.askpass=echo"@,
        clone_list(owner, repo, target)[11] == "https://github.com/"@ + owner + "/"@ + repo
            + ".git"@,
        clone_list(owner, repo, target)[12] == target,
{
}

/// A fetch makes the same settings as a clone, each behind `-c`, and asks for the rest
/// of the history, again without file contents.
pub proof fn law_fetch_list(owner: Seq<char>, repo: Seq<char>, target: Seq<char>)
    ensures
        fetch_list().len() == 11,
        fetch_list()[0] == "-c"@,
        fetch_list()[1] == clone_list(owner, repo, target)[4],
        fetch_list()[2] == "-c"@,
        fetch_list()[3] == clone_list(owner, repo, target)[6],
        fetch_list()[4] == "-c"@,
        fetch_list()[5] == clone_list(owner, repo, target)[8],
        fetch_list()[6] == "-c"@,
        fetch_list()[7] == clone_list(owner, repo, target)[10],
        fetch_list()[8] == "fetch"@,
        fetch_list()[9] == "--filter=blob:none"@,
        fetch_list()[10] == "--unshallow"@,
{
}

/// The question whether a clone is shallow has two words.
pub proof fn law_shallow_list()
    ensures
        shallow_list().len() == 2,
        shallow_list()[0] == "rev-parse"@,
        shallow_list()[1] == "--is-shallow-repository"@,
{
}

/// Whoever's commits are listed, the options are the same; the last argument is the
/// address asked for, as it is.
pub proof fn law_log_list(author_email: Seq<char>)
    ensures
        log_list(author_email).len() == 4,
        log_list(author_email)[0] == "log"@,
        log_list(author_email)[1] == "--format=%aI"@,
        log_list(author_email)[2] == "--author"@,
        log_list(author_email)[3] == author_email,
{
}

} // verus!
