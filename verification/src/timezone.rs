//! The time zones in which an author commits.

use vstd::prelude::*;

use crate::git::log_args;
use crate::text::contains;

verus! {

/// The texts that mark a time zone as one of China.
pub open spec fn china_timezones() -> Seq<Seq<char>> {
    seq!["+0800"@, "+08:00"@, "CST"@, "Asia/Shanghai"@]
}

/// Whether a time zone may be one of China: it holds one of the marking texts.
pub open spec fn china_timezone(timezone: Seq<char>) -> bool {
    exists|i: int|
        0 <= i < china_timezones().len() && crate::text::has_substring(
            timezone,
            #[trigger] china_timezones()[i],
        )
}

/// Whether a time zone may be one of China.
pub fn is_china_timezone(timezone: &str) -> (r: bool)
    ensures
        r == china_timezone(timezone@),
{
    let r = contains(timezone, "+0800") || contains(timezone, "+08:00") || contains(timezone, "CST")
        || contains(timezone, "Asia/Shanghai");
    proof {
        let marks = china_timezones();
        assert(marks[0] == "+0800"@);
        assert(marks[1] == "+08:00"@);
        assert(marks[2] == "CST"@);
        assert(marks[3] == "Asia/Shanghai"@);
    }
    r
}

/// The moment of a commit, with the offset in which its author wrote it.
#[derive(Debug, Clone, Copy)]
pub struct CommitTime {
    /// Seconds since 1970-01-01T00:00:00Z.
    pub timestamp: i64,
    /// Nanoseconds within the second.
    pub nanos: u32,
    /// Seconds east of UTC.
    pub offset: i32,
}

/// One commit of an author.
#[derive(Debug)]
pub struct CommitInfo {
    pub datetime: CommitTime,
    pub timezone: String,
}

/// What a commit is in specifications.
pub struct CommitView {
    pub datetime: CommitTime,
    pub timezone: Seq<char>,
}

impl View for CommitInfo {
    type V = CommitView;

    open spec fn view(&self) -> CommitView {
        CommitView { datetime: self.datetime, timezone: self.timezone@ }
    }
}

/// The time zone texts of a list of commits.
pub open spec fn timezones(commits: Seq<CommitInfo>) -> Seq<Seq<char>> {
    commits.map_values(|c: CommitInfo| c.timezone@)
}

/// What the commits of a contributor say about where they work.
#[derive(Debug)]
pub struct ContributorAnalysis {
    pub has_china_timezone: bool,
    pub common_timezone: String,
}

/// What an analysis is in specifications.
pub struct AnalysisView {
    pub has_china_timezone: bool,
    pub common_timezone: Seq<char>,
}

impl View for ContributorAnalysis {
    type V = AnalysisView;

    open spec fn view(&self) -> AnalysisView {
        AnalysisView {
            has_china_timezone: self.has_china_timezone,
            common_timezone: self.common_timezone@,
        }
    }
}

/// How often `x` occurs in `list`.
pub open spec fn occurrences(list: Seq<Seq<char>>, x: Seq<char>) -> nat
    decreases list.len(),
{
    if list.len() == 0 {
        0
    } else {
        occurrences(list.drop_last(), x) + if list.last() == x {
            1nat
        } else {
            0nat
        }
    }
}

/// Whether `x` is in `list` and nothing occurs there more often.
pub open spec fn most_frequent(list: Seq<Seq<char>>, x: Seq<char>) -> bool {
    &&& list.contains(x)
    &&& forall|y: Seq<char>| #[trigger] occurrences(list, y) <= occurrences(list, x)
}

/// Whether `analysis` is right for commits made in the time zones `list`. Of
/// several time zones that are equally frequent, any may be the common one.
pub open spec fn summarizes(list: Seq<Seq<char>>, analysis: AnalysisView) -> bool {
    &&& analysis.has_china_timezone == exists|i: int|
        0 <= i < list.len() && china_timezone(#[trigger] list[i])
    &&& most_frequent(list, analysis.common_timezone)
}

/// Only what is in a list occurs in it.
proof fn lemma_occurrences_positive(list: Seq<Seq<char>>, x: Seq<char>)
    ensures
        occurrences(list, x) > 0 <==> list.contains(x),
        occurrences(list, x) <= list.len(),
    decreases list.len(),
{
    if list.len() > 0 {
        let init = list.drop_last();
        lemma_occurrences_positive(init, x);
        if init.contains(x) {
            let i = choose|i: int| 0 <= i < init.len() && init[i] == x;
            assert(list[i] == x);
        }
        if list.last() == x {
            assert(list[list.len() - 1] == x);
        }
        if list.contains(x) && list.last() != x {
            let i = choose|i: int| 0 <= i < list.len() && list[i] == x;
            assert(init[i] == x);
        }
    }
}

/// Whether `x` has an entry.
spec fn has_entry(entries: Seq<(String, usize)>, x: Seq<char>) -> bool {
    exists|i: int| 0 <= i < entries.len() && #[trigger] entries[i].0@ == x
}

/// How often each time zone was seen.
struct Tally {
    entries: Vec<(String, usize)>,
}

impl Tally {
    /// Each time zone of `list` has one entry, with the number of its occurrences.
    spec fn counts(self, list: Seq<Seq<char>>) -> bool {
        &&& forall|i: int, j: int|
            0 <= i < j < self.entries.len() ==> self.entries[i].0@ != self.entries[j].0@
        &&& forall|i: int|
            0 <= i < self.entries.len() ==> (#[trigger] self.entries[i]).1 as nat == occurrences(
                list,
                self.entries[i].0@,
            )
        &&& forall|i: int|
            0 <= i < self.entries.len() ==> (#[trigger] self.entries[i]).1 > 0
        &&& forall|x: Seq<char>| list.contains(x) ==> #[trigger] has_entry(self.entries@, x)
    }

    /// Counts one more occurrence of `timezone`.
    fn record(self, timezone: &String, Ghost(list): Ghost<Seq<Seq<char>>>) -> (r: Self)
        requires
            self.counts(list),
            list.len() < usize::MAX,
        ensures
            r.counts(list.push(timezone@)),
    {
        let mut entries = self.entries;
        let n: usize = entries.len();
        let mut at: usize = 0;
        while at < n && entries[at].0 != *timezone
            invariant
                at <= n,
                n == entries.len(),
                forall|j: int| 0 <= j < at ==> (#[trigger] entries[j]).0@ != timezone@,
            decreases n - at,
        {
            at += 1;
        }
        let ghost longer = list.push(timezone@);
        assert(longer.drop_last() =~= list);
        proof {
            lemma_occurrences_positive(list, timezone@);
        }
        if at < n {
            let key = entries[at].0.clone();
            let count: usize = entries[at].1;
            entries.set(at, (key, count + 1));
            assert(entries@[at as int].0@ == timezone@);
        } else {
            proof {
                if list.contains(timezone@) {
                    assert(has_entry(self.entries@, timezone@));
                    let i = choose|i: int|
                        0 <= i < self.entries@.len() && #[trigger] self.entries@[i].0@
                            == timezone@;
                    assert(entries@[i].0@ == timezone@);
                }
            }
            entries.push((timezone.clone(), 1));
            assert(entries@[n as int].0@ == timezone@);
        }
        proof {
            assert(has_entry(entries@, timezone@));
            assert forall|x: Seq<char>| longer.contains(x) implies #[trigger] has_entry(
                entries@,
                x,
            ) by {
                crate::text::lemma_push_contains(list, timezone@, x);
                if x != timezone@ {
                    assert(has_entry(self.entries@, x));
                    let i = choose|i: int|
                        0 <= i < self.entries@.len() && #[trigger] self.entries@[i].0@ == x;
                    assert(entries@[i].0@ == x);
                }
            }
        }
        Tally { entries }
    }

    /// A time zone that occurs most often.
    fn most_common(&self, Ghost(list): Ghost<Seq<Seq<char>>>) -> (r: String)
        requires
            self.counts(list),
            list.len() > 0,
        ensures
            most_frequent(list, r@),
    {
        assert(list.contains(list[0]));
        assert(has_entry(self.entries@, list[0]));
        let mut best: usize = 0;
        for i in 1..self.entries.len()
            invariant
                best < self.entries.len(),
                best < i,
                forall|j: int|
                    0 <= j < i ==> (#[trigger] self.entries[j]).1 <= self.entries[best as int].1,
        {
            if self.entries[i].1 >= self.entries[best].1 {
                best = i;
            }
        }
        let r = self.entries[best].0.clone();
        proof {
            lemma_occurrences_positive(list, r@);
            assert forall|y: Seq<char>| #[trigger]
                occurrences(list, y) <= occurrences(list, r@) by {
                lemma_occurrences_positive(list, y);
                if list.contains(y) {
                    assert(has_entry(self.entries@, y));
                    let i = choose|i: int|
                        0 <= i < self.entries@.len() && #[trigger] self.entries@[i].0@ == y;
                    assert(self.entries[i].1 <= self.entries[best as int].1);
                }
            }
        }
        r
    }
}

/// What the commits of an author say about their time zone; nothing without commits.
pub fn summarize_commits(commits: &Vec<CommitInfo>) -> (r: Option<ContributorAnalysis>)
    ensures
        r is None <==> commits.len() == 0,
        r is Some ==> summarizes(timezones(commits@), r->0@),
{
    if commits.len() == 0 {
        return None;
    }
    let ghost all = timezones(commits@);
    let mut has_china_timezone: bool = false;
    let mut tally = Tally { entries: Vec::new() };
    for i in 0..commits.len()
        invariant
            all == timezones(commits@),
            tally.counts(all.take(i as int)),
            has_china_timezone == exists|j: int| 0 <= j < i && china_timezone(#[trigger] all[j]),
    {
        let timezone = &commits[i].timezone;
        assert(all[i as int] == timezone@);
        assert(all.take(i + 1) =~= all.take(i as int).push(timezone@));
        tally = tally.record(timezone, Ghost(all.take(i as int)));
        if is_china_timezone(timezone) {
            has_china_timezone = true;
        }
    }
    assert(all.take(commits@.len() as int) =~= all);
    let common_timezone = tally.most_common(Ghost(all));
    Some(ContributorAnalysis { has_china_timezone, common_timezone })
}

/// How far the analysis of one contributor has come. The caller fetches the
/// commits of the pending e-mail address and hands them to `on_commits`, until
/// the analysis is finished.
#[derive(Debug)]
pub enum TimezoneAnalysis {
    /// The commits of `emails[next]` are wanted.
    Pending { emails: Vec<String>, next: usize },
    /// The outcome: nothing where no commits were found.
    Finished(Option<ContributorAnalysis>),
}

/// What the progress of an analysis is in specifications.
pub enum TimezoneView {
    Pending { emails: Seq<Seq<char>>, next: int },
    Finished(Option<AnalysisView>),
}

impl View for TimezoneAnalysis {
    type V = TimezoneView;

    open spec fn view(&self) -> TimezoneView {
        match self {
            TimezoneAnalysis::Pending { emails, next } => TimezoneView::Pending {
                emails: crate::text::strings(emails@),
                next: *next as int,
            },
            TimezoneAnalysis::Finished(None) => TimezoneView::Finished(None),
            TimezoneAnalysis::Finished(Some(a)) => TimezoneView::Finished(Some(a@)),
        }
    }
}

/// The time zones in a reply to the question for an author's commits.
pub open spec fn reply_timezones(reply: Option<Vec<CommitInfo>>) -> Option<Seq<Seq<char>>> {
    match reply {
        None => None,
        Some(commits) => Some(timezones(commits@)),
    }
}

/// Whether a reply holds commits.
pub open spec fn found(reply: Option<Seq<Seq<char>>>) -> bool {
    reply is Some && reply->0.len() > 0
}

/// How an analysis starts: with the first address, or already finished where
/// there is no repository or no address.
pub open spec fn timezone_start(repo_exists: bool, emails: Seq<Seq<char>>) -> TimezoneView {
    if repo_exists && emails.len() > 0 {
        TimezoneView::Pending { emails, next: 0 }
    } else {
        TimezoneView::Finished(None)
    }
}

/// Whether an analysis may go from `before` to `after` on a reply: commits end
/// it, without them the next address is tried, and a finished one stays as it is.
pub open spec fn timezone_step(
    before: TimezoneView,
    reply: Option<Seq<Seq<char>>>,
    after: TimezoneView,
) -> bool {
    match before {
        TimezoneView::Finished(_) => after == before,
        TimezoneView::Pending { emails, next } => if found(reply) {
            after matches TimezoneView::Finished(Some(analysis)) && summarizes(reply->0, analysis)
        } else if next + 1 < emails.len() {
            after == (TimezoneView::Pending { emails, next: next + 1 })
        } else {
            after == TimezoneView::Finished(None)
        },
    }
}

/// Starts the analysis of a contributor who commits under `emails`.
pub fn analyze_contributor_timezone(repo_exists: bool, emails: Vec<String>) -> (r:
    TimezoneAnalysis)
    ensures
        r@ == timezone_start(repo_exists, crate::text::strings(emails@)),
{
    if repo_exists && emails.len() > 0 {
        TimezoneAnalysis::Pending { emails, next: 0 }
    } else {
        TimezoneAnalysis::Finished(None)
    }
}

impl TimezoneAnalysis {
    /// The address whose commits are wanted next.
    pub fn pending_email(&self) -> (r: Option<&String>)
        ensures
            match self@ {
                TimezoneView::Pending { emails, next } => if next < emails.len() {
                    r is Some && r->0@ == emails[next]
                } else {
                    r is None
                },
                TimezoneView::Finished(_) => r is None,
            },
    {
        match self {
            TimezoneAnalysis::Pending { emails, next } => if *next < emails.len() {
                Some(&emails[*next])
            } else {
                None
            },
            TimezoneAnalysis::Finished(_) => None,
        }
    }

    /// The arguments with which git lists the commits of the pending address.
    pub fn log_command(&self) -> (r: Option<Vec<String>>)
        ensures
            match self@ {
                TimezoneView::Pending { emails, next } => if next < emails.len() {
                    r is Some && crate::text::strings(r->0@) == crate::git::log_list(emails[next])
                } else {
                    r is None
                },
                TimezoneView::Finished(_) => r is None,
            },
    {
        match self.pending_email() {
            Some(email) => Some(log_args(email)),
            None => None,
        }
    }

    /// Goes on with the commits of the pending address; `None` where they could
    /// not be had.
    pub fn on_commits(self, reply: Option<Vec<CommitInfo>>) -> (r: TimezoneAnalysis)
        ensures
            timezone_step(self@, reply_timezones(reply), r@),
    {
        match self {
            TimezoneAnalysis::Finished(outcome) => TimezoneAnalysis::Finished(outcome),
            TimezoneAnalysis::Pending { emails, next } => {
                if let Some(commits) = &reply {
                    if commits.len() > 0 {
                        return TimezoneAnalysis::Finished(summarize_commits(commits));
                    }
                }
                if next < emails.len() && next + 1 < emails.len() {
                    TimezoneAnalysis::Pending { emails, next: next + 1 }
                } else {
                    TimezoneAnalysis::Finished(None)
                }
            },
        }
    }
}

/// A contributor whose common time zone is one of China has a time zone of China.
pub proof fn law_common_china_timezone(list: Seq<Seq<char>>, analysis: AnalysisView)
    requires
        summarizes(list, analysis),
        china_timezone(analysis.common_timezone),
    ensures
        analysis.has_china_timezone,
{
    let tz = analysis.common_timezone;
    let i = choose|i: int| 0 <= i < list.len() && list[i] == tz;
    assert(china_timezone(list[i]));
}

/// `+08:00` is a time zone of China.
pub(crate) proof fn lemma_plus_eight()
    ensures
        china_timezone("+08:00"@),
{
    let tz = "+08:00"@;
    assert(tz.subrange(0, tz.len() as int) =~= tz);
    assert(crate::text::occurs_at(tz, tz, 0));
    assert(china_timezones()[1] == tz);
}

/// Where one time zone occurs more often than every other, it is the common one.
pub proof fn law_unique_common_timezone(
    list: Seq<Seq<char>>,
    analysis: AnalysisView,
    tz: Seq<char>,
)
    requires
        summarizes(list, analysis),
        forall|y: Seq<char>| y != tz ==> #[trigger] occurrences(list, y) < occurrences(list, tz),
    ensures
        analysis.common_timezone == tz,
{
    assert(occurrences(list, tz) <= occurrences(list, analysis.common_timezone));
}

/// A whole analysis: the addresses are asked for in order, each once and only
/// until commits are found; the outcome is a summary of the first commits found,
/// and there is none exactly where no repository or no commits were found.
pub proof fn law_timezone_run(
    repo_exists: bool,
    emails: Seq<Seq<char>>,
    states: Seq<TimezoneView>,
    replies: Seq<Option<Seq<Seq<char>>>>,
    outcome: Option<AnalysisView>,
)
    requires
        states.len() == replies.len() + 1,
        states[0] == timezone_start(repo_exists, emails),
        forall|i: int|
            0 <= i < replies.len() ==> #[trigger] states[i] is Pending && timezone_step(
                states[i],
                replies[i],
                states[i + 1],
            ),
        states.last() == TimezoneView::Finished(outcome),
    ensures
        replies.len() <= emails.len(),
        forall|i: int|
            0 <= i < replies.len() ==> #[trigger] states[i] == (TimezoneView::Pending {
                emails,
                next: i,
            }),
        forall|i: int| 0 <= i < replies.len() - 1 ==> !found(#[trigger] replies[i]),
        outcome is Some ==> replies.len() > 0 && found(replies.last()) && summarizes(
            replies.last()->0,
            outcome->0,
        ),
        outcome is None <==> !repo_exists || (replies.len() == emails.len() && forall|i: int|
            0 <= i < replies.len() ==> !found(#[trigger] replies[i])),
{
    lemma_timezone_run_prefix(repo_exists, emails, states, replies, replies.len() as int);
    let n = replies.len() as int;
    if n > 0 {
        lemma_timezone_run_prefix(repo_exists, emails, states, replies, n - 1);
        assert(states[n - 1] is Pending);
        assert(timezone_step(states[n - 1], replies[n - 1], states[n - 1 + 1]));
    }
}

/// As long as an analysis is pending, it waits for the address after those
/// without commits.
proof fn lemma_timezone_run_prefix(
    repo_exists: bool,
    emails: Seq<Seq<char>>,
    states: Seq<TimezoneView>,
    replies: Seq<Option<Seq<Seq<char>>>>,
    n: int,
)
    requires
        0 <= n <= replies.len(),
        states.len() == replies.len() + 1,
        states[0] == timezone_start(repo_exists, emails),
        forall|i: int|
            0 <= i < replies.len() ==> #[trigger] states[i] is Pending && timezone_step(
                states[i],
                replies[i],
                states[i + 1],
            ),
    ensures
        forall|i: int|
            0 <= i < n ==> #[trigger] states[i] == (TimezoneView::Pending { emails, next: i }),
        states[n] is Pending ==> states[n] == (TimezoneView::Pending { emails, next: n }) && n
            < emails.len(),
        forall|i: int| 0 <= i < n - 1 ==> !found(#[trigger] replies[i]),
        n > 0 ==> repo_exists && n <= emails.len(),
    decreases n,
{
    if n > 0 {
        lemma_timezone_run_prefix(repo_exists, emails, states, replies, n - 1);
        assert(states[n - 1] is Pending);
        assert(timezone_step(states[n - 1], replies[n - 1], states[n - 1 + 1]));
        if n > 1 {
            assert(states[n - 2] is Pending);
            assert(timezone_step(states[n - 2], replies[n - 2], states[n - 2 + 1]));
        }
    }
}

/// A time zone occurs as often as there are positions at which it stands.
pub proof fn law_occurrences_are_positions(list: Seq<Seq<char>>, x: Seq<char>)
    ensures
        Set::new(|i: int| 0 <= i < list.len() && list[i] == x).finite(),
        occurrences(list, x) == Set::new(|i: int| 0 <= i < list.len() && list[i] == x).len(),
    decreases list.len(),
{
    let here = Set::new(|i: int| 0 <= i < list.len() && list[i] == x);
    if list.len() == 0 {
        assert(here =~= Set::empty());
    } else {
        let init = list.drop_last();
        let before = Set::new(|i: int| 0 <= i < init.len() && init[i] == x);
        law_occurrences_are_positions(init, x);
        if list.last() == x {
            assert(here =~= before.insert(list.len() - 1));
        } else {
            assert(here =~= before);
        }
    }
}

/// One more commit counts for its own time zone and for no other.
pub proof fn law_occurrences_push(list: Seq<Seq<char>>, added: Seq<char>, x: Seq<char>)
    ensures
        occurrences(list.push(added), x) == occurrences(list, x) + if added == x {
            1nat
        } else {
            0nat
        },
        occurrences(Seq::empty(), x) == 0,
{
    assert(list.push(added).drop_last() =~= list);
}

/// What makes an analysis right, over the list alone: the mark of China is set
/// exactly where one of the texts `+0800`, `+08:00`, `CST` and `Asia/Shanghai` occurs
/// in one of the time zones, and the common time zone is in the list, no fewer times
/// than any other.
pub proof fn law_summarizes(list: Seq<Seq<char>>, analysis: AnalysisView)
    ensures
        summarizes(list, analysis) <==> {
            &&& analysis.has_china_timezone <==> exists|i: int|
                0 <= i < list.len() && {
                    ||| crate::text::has_substring(#[trigger] list[i], "+0800"@)
                    ||| crate::text::has_substring(list[i], "+08:00"@)
                    ||| crate::text::has_substring(list[i], "CST"@)
                    ||| crate::text::has_substring(list[i], "Asia/Shanghai"@)
                }
            &&& exists|i: int| 0 <= i < list.len() && #[trigger] list[i] == analysis.common_timezone
            &&& forall|y: Seq<char>| #[trigger]
                list.to_multiset().count(y) <= list.to_multiset().count(analysis.common_timezone)
        },
{
    assert forall|y: Seq<char>|
        occurrences(list, y) == #[trigger] list.to_multiset().count(y) by {
        lemma_occurrences_multiset(list, y);
    }
    assert forall|y: Seq<char>| #[trigger]
        occurrences(list, y) == list.to_multiset().count(y) by {
        lemma_occurrences_multiset(list, y);
    }
    assert forall|i: int| 0 <= i < list.len() implies china_timezone(#[trigger] list[i]) == {
        ||| crate::text::has_substring(list[i], "+0800"@)
        ||| crate::text::has_substring(list[i], "+08:00"@)
        ||| crate::text::has_substring(list[i], "CST"@)
        ||| crate::text::has_substring(list[i], "Asia/Shanghai"@)
    } by {
        law_china_timezone(list[i]);
    }
}

/// A time zone may be one of China exactly where one of the four texts occurs in it.
pub proof fn law_china_timezone(timezone: Seq<char>)
    ensures
        china_timezone(timezone) <==> {
            ||| crate::text::has_substring(timezone, "+0800"@)
            ||| crate::text::has_substring(timezone, "+08:00"@)
            ||| crate::text::has_substring(timezone, "CST"@)
            ||| crate::text::has_substring(timezone, "Asia/Shanghai"@)
        },
{
    let marks = china_timezones();
    assert(marks[0] == "+0800"@);
    assert(marks[1] == "+08:00"@);
    assert(marks[2] == "CST"@);
    assert(marks[3] == "Asia/Shanghai"@);
}

/// A time zone that is in the list more often than any other is the common one.
pub proof fn law_majority_timezone(
    list: Seq<Seq<char>>,
    analysis: AnalysisView,
    timezone: Seq<char>,
)
    requires
        summarizes(list, analysis),
        forall|y: Seq<char>|
            y != timezone ==> #[trigger] list.to_multiset().count(y) < list.to_multiset().count(
                timezone,
            ),
    ensures
        analysis.common_timezone == timezone,
{
    lemma_occurrences_multiset(list, timezone);
    lemma_occurrences_multiset(list, analysis.common_timezone);
    assert(occurrences(list, timezone) <= occurrences(list, analysis.common_timezone));
}

/// The order of the commits does not matter to whether an analysis is right.
pub proof fn law_order_of_commits(
    a: Seq<Seq<char>>,
    b: Seq<Seq<char>>,
    analysis: AnalysisView,
)
    requires
        a.to_multiset() =~= b.to_multiset(),
        summarizes(a, analysis),
    ensures
        summarizes(b, analysis),
{
    assert forall|x: Seq<char>| #[trigger] occurrences(b, x) == occurrences(a, x) by {
        lemma_occurrences_multiset(a, x);
        lemma_occurrences_multiset(b, x);
    }
    assert forall|x: Seq<char>| a.contains(x) <==> #[trigger] b.contains(x) by {
        lemma_occurrences_positive(a, x);
        lemma_occurrences_positive(b, x);
        assert(occurrences(b, x) == occurrences(a, x));
    }
    assert(b.contains(analysis.common_timezone));
    if exists|i: int| 0 <= i < a.len() && china_timezone(#[trigger] a[i]) {
        let i = choose|i: int| 0 <= i < a.len() && china_timezone(#[trigger] a[i]);
        assert(a.contains(a[i]));
        assert(b.contains(a[i]));
        let j = choose|j: int| 0 <= j < b.len() && b[j] == a[i];
        assert(china_timezone(b[j]));
    }
    if exists|i: int| 0 <= i < b.len() && china_timezone(#[trigger] b[i]) {
        let i = choose|i: int| 0 <= i < b.len() && china_timezone(#[trigger] b[i]);
        assert(b.contains(b[i]));
        assert(a.contains(b[i]));
        let j = choose|j: int| 0 <= j < a.len() && a[j] == b[i];
        assert(china_timezone(a[j]));
    }
}

/// A time zone occurs as often as in the multiset of the list.
proof fn lemma_occurrences_multiset(list: Seq<Seq<char>>, x: Seq<char>)
    ensures
        occurrences(list, x) == list.to_multiset().count(x),
    decreases list.len(),
{
    broadcast use vstd::multiset::group_multiset_axioms;
    broadcast use vstd::seq_lib::group_to_multiset_ensures;

    if list.len() > 0 {
        let init = list.drop_last();
        lemma_occurrences_multiset(init, x);
        assert(init.push(list.last()) =~= list);
        assert(list.to_multiset() =~= init.to_multiset().insert(list.last()));
    } else {
        assert(list =~= Seq::empty());
    }
}

/// The time zones of a list of commits are theirs, one for one; so is what a commit
/// and an analysis are in specifications.
pub proof fn law_timezone_views(
    commits: Seq<CommitInfo>,
    commit: CommitInfo,
    analysis: ContributorAnalysis,
)
    ensures
        timezones(commits).len() == commits.len(),
        forall|i: int|
            0 <= i < commits.len() ==> #[trigger] timezones(commits)[i] == commits[i].timezone@,
        commit@.timezone == commit.timezone@,
        commit@.datetime == commit.datetime,
        analysis@.common_timezone == analysis.common_timezone@,
        analysis@.has_china_timezone == analysis.has_china_timezone,
{
}

/// A reply is there exactly where there are commits, and holds their time zones.
pub proof fn law_reply_timezones(reply: Option<Vec<CommitInfo>>)
    ensures
        reply_timezones(reply) is Some <==> reply is Some,
        reply is Some ==> reply_timezones(reply)->0.len() == reply->0@.len(),
        reply is Some ==> forall|i: int|
            0 <= i < reply->0@.len() ==> #[trigger] reply_timezones(reply)->0[i]
                == reply->0@[i].timezone@,
{
}

/// An analysis waits for the first address exactly where the repository exists and
/// there is an address; else it is over without an outcome.
pub proof fn law_timezone_start(repo_exists: bool, emails: Seq<Seq<char>>)
    ensures
        repo_exists && emails.len() > 0 ==> timezone_start(repo_exists, emails) == (
        TimezoneView::Pending { emails, next: 0 }),
        !repo_exists || emails.len() == 0 ==> timezone_start(repo_exists, emails)
            == TimezoneView::Finished(None),
{
}

/// Any commits at all, even a single one, end the wait for an address with their own
/// summary.
pub proof fn law_commits_end_the_wait(
    emails: Seq<Seq<char>>,
    next: int,
    list: Seq<Seq<char>>,
    after: TimezoneView,
)
    requires
        list.len() > 0,
        timezone_step(TimezoneView::Pending { emails, next }, Some(list), after),
    ensures
        after is Finished,
        after->Finished_0 is Some,
        summarizes(list, after->Finished_0->0),
{
}

/// Without commits the wait goes on with the very next address, and ends without an
/// outcome behind the last.
pub proof fn law_no_commits_next_address(
    emails: Seq<Seq<char>>,
    next: int,
    reply: Option<Seq<Seq<char>>>,
    after: TimezoneView,
)
    requires
        reply is None || reply->0.len() == 0,
        timezone_step(TimezoneView::Pending { emails, next }, reply, after),
    ensures
        next + 1 < emails.len() ==> after == (TimezoneView::Pending { emails, next: next + 1 }),
        next + 1 >= emails.len() ==> after == TimezoneView::Finished(None),
{
}

/// An analysis that is over stays over, with its outcome.
pub proof fn law_finished_stays(
    outcome: Option<AnalysisView>,
    reply: Option<Seq<Seq<char>>>,
    after: TimezoneView,
)
    requires
        timezone_step(TimezoneView::Finished(outcome), reply, after),
    ensures
        after == TimezoneView::Finished(outcome),
{
}

/// What an analysis in progress is in specifications.
pub proof fn law_progress_view(emails: Vec<String>, next: usize, outcome: ContributorAnalysis)
    ensures
        (TimezoneAnalysis::Pending { emails, next })@ == (TimezoneView::Pending {
            emails: crate::text::strings(emails@),
            next: next as int,
        }),
        TimezoneAnalysis::Finished(None)@ == TimezoneView::Finished(None),
        TimezoneAnalysis::Finished(Some(outcome))@ == TimezoneView::Finished(Some(outcome@)),
{
}

} // verus!
