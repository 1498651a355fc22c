//! The contributors of a repository: each is looked up, new ones are fetched and
//! stored, and their share in the repository is recorded.

use std::path::PathBuf;

use uuid::Uuid;
use vstd::prelude::*;

use crate::locations::{analyze_contributor_locations, LocationAnalysis};
use crate::model::{AnalyzedUser, Contributor};

verus! {

/// What is to be done next, or how the work ended. `I` is the type of a position
/// in the list of contributors, `T` that of a text.
#[derive(Debug)]
pub enum ContributorStage<I, T> {
    /// Find the identifier of the repository.
    FindRepository,
    /// List the contributors of the repository.
    ListContributors,
    /// Look a contributor up among the stored users.
    FindUser { contributor: I },
    /// Fetch the details of a contributor who is not stored.
    FetchDetails { contributor: I },
    /// Find the address under which a contributor commits.
    FindEmail { contributor: I },
    /// Store a contributor, with the address under which they commit.
    StoreUser { contributor: I, commit_email: Option<T> },
    /// Record the contributions of the user found last.
    RecordContributions { contributor: I },
    /// All contributors have been dealt with: analyse where the users found work.
    AnalyzeLocations,
    /// The repository is not registered.
    Unregistered,
    /// A step failed on which the rest depends.
    Failed,
}

/// What came of the last stage. `N`, `U` and `T` are the types of a list of
/// contributors, of a user and of a text.
#[derive(Debug)]
pub enum ContributorEvent<N, U, T> {
    /// The identifier of the repository, if it is registered.
    Repository(Option<Uuid>),
    /// The contributors of the repository.
    Contributors(N),
    /// The stored user, if there is one.
    User(Option<U>),
    /// The details could be had; `is_bot` says whether they are those of a program.
    Details { is_bot: bool },
    /// The details could not be had.
    NoDetails,
    /// The address under which the contributor commits, if one was found.
    Email(Option<T>),
    /// The user as stored.
    UserStored(U),
    /// Recording has ended, in success or failure.
    Recorded,
    /// The stage failed.
    Error,
}

/// The work on the contributors of one repository, and the users found so far.
pub struct ContributorScan {
    owner: String,
    repo: String,
    repository_id: Option<Uuid>,
    contributors: Vec<Contributor>,
    users: Vec<AnalyzedUser>,
    stage: ContributorStage<usize, String>,
}

/// What the work on the contributors is in specifications.
#[verifier::ext_equal]
pub struct ScanView {
    pub owner: Seq<char>,
    pub repo: Seq<char>,
    pub repository_id: Option<Uuid>,
    pub contributors: Seq<crate::model::ContributorView>,
    pub users: Seq<crate::model::UserView>,
    pub stage: ContributorStage<int, Seq<char>>,
}

/// The views of a list of contributors.
pub open spec fn contributor_views(list: Seq<Contributor>) -> Seq<crate::model::ContributorView> {
    list.map_values(|c: Contributor| c@)
}

/// What a stage is in specifications.
pub open spec fn stage_view(stage: ContributorStage<usize, String>) -> ContributorStage<
    int,
    Seq<char>,
> {
    match stage {
        ContributorStage::FindRepository => ContributorStage::FindRepository,
        ContributorStage::ListContributors => ContributorStage::ListContributors,
        ContributorStage::FindUser { contributor } => ContributorStage::FindUser {
            contributor: contributor as int,
        },
        ContributorStage::FetchDetails { contributor } => ContributorStage::FetchDetails {
            contributor: contributor as int,
        },
        ContributorStage::FindEmail { contributor } => ContributorStage::FindEmail {
            contributor: contributor as int,
        },
        ContributorStage::StoreUser { contributor, commit_email } => ContributorStage::StoreUser {
            contributor: contributor as int,
            commit_email: crate::text::optional_text(commit_email),
        },
        ContributorStage::RecordContributions {
            contributor,
        } => ContributorStage::RecordContributions { contributor: contributor as int },
        ContributorStage::AnalyzeLocations => ContributorStage::AnalyzeLocations,
        ContributorStage::Unregistered => ContributorStage::Unregistered,
        ContributorStage::Failed => ContributorStage::Failed,
    }
}

/// What an event is in specifications.
pub open spec fn event_view(
    event: ContributorEvent<Vec<Contributor>, AnalyzedUser, String>,
) -> ContributorEvent<Seq<crate::model::ContributorView>, crate::model::UserView, Seq<char>> {
    match event {
        ContributorEvent::Repository(id) => ContributorEvent::Repository(id),
        ContributorEvent::Contributors(list) => ContributorEvent::Contributors(
            contributor_views(list@),
        ),
        ContributorEvent::User(None) => ContributorEvent::User(None),
        ContributorEvent::User(Some(user)) => ContributorEvent::User(Some(user@)),
        ContributorEvent::Details { is_bot } => ContributorEvent::Details { is_bot },
        ContributorEvent::NoDetails => ContributorEvent::NoDetails,
        ContributorEvent::Email(email) => ContributorEvent::Email(
            crate::text::optional_text(email),
        ),
        ContributorEvent::UserStored(user) => ContributorEvent::UserStored(user@),
        ContributorEvent::Recorded => ContributorEvent::Recorded,
        ContributorEvent::Error => ContributorEvent::Error,
    }
}

impl View for ContributorScan {
    type V = ScanView;

    closed spec fn view(&self) -> ScanView {
        ScanView {
            owner: self.owner@,
            repo: self.repo@,
            repository_id: self.repository_id,
            contributors: contributor_views(self.contributors@),
            users: crate::model::user_views(self.users@),
            stage: stage_view(self.stage),
        }
    }
}

/// The work before anything was done.
pub open spec fn scan_start(owner: Seq<char>, repo: Seq<char>) -> ScanView {
    ScanView {
        owner,
        repo,
        repository_id: None,
        contributors: Seq::empty(),
        users: Seq::empty(),
        stage: ContributorStage::FindRepository,
    }
}

/// The stage for the contributor at `at`, or for what follows the last one.
pub open spec fn contributor_at(
    contributors: Seq<crate::model::ContributorView>,
    at: int,
) -> ContributorStage<int, Seq<char>> {
    if at < contributors.len() {
        ContributorStage::FindUser { contributor: at }
    } else {
        ContributorStage::AnalyzeLocations
    }
}

/// A user was found for the contributor at `at`.
pub open spec fn user_found(s: ScanView, at: int, user: crate::model::UserView) -> ScanView {
    ScanView {
        users: s.users.push(user),
        stage: ContributorStage::RecordContributions { contributor: at },
        ..s
    }
}

/// The work after `event`. An event that does not answer the stage changes nothing.
pub open spec fn scan_step(
    s: ScanView,
    event: ContributorEvent<Seq<crate::model::ContributorView>, crate::model::UserView, Seq<char>>,
) -> ScanView {
    match (s.stage, event) {
        (ContributorStage::FindRepository, ContributorEvent::Repository(Some(id))) => ScanView {
            repository_id: Some(id),
            stage: ContributorStage::ListContributors,
            ..s
        },
        (ContributorStage::FindRepository, ContributorEvent::Repository(None)) => ScanView {
            stage: ContributorStage::Unregistered,
            ..s
        },
        (ContributorStage::ListContributors, ContributorEvent::Contributors(list)) => ScanView {
            contributors: list,
            stage: contributor_at(list, 0),
            ..s
        },
        (
            ContributorStage::FindUser { contributor },
            ContributorEvent::User(Some(user)),
        ) => user_found(s, contributor, user),
        (ContributorStage::FindUser { contributor }, ContributorEvent::User(None)) => ScanView {
            stage: ContributorStage::FetchDetails { contributor },
            ..s
        },
        (
            ContributorStage::FetchDetails { contributor },
            ContributorEvent::Details { is_bot },
        ) => ScanView {
            stage: if is_bot {
                contributor_at(s.contributors, contributor + 1)
            } else {
                ContributorStage::FindEmail { contributor }
            },
            ..s
        },
        (ContributorStage::FetchDetails { contributor }, ContributorEvent::NoDetails) => ScanView {
            stage: contributor_at(s.contributors, contributor + 1),
            ..s
        },
        (ContributorStage::FindEmail { contributor }, ContributorEvent::Email(email)) => ScanView {
            stage: ContributorStage::StoreUser { contributor, commit_email: email },
            ..s
        },
        (
            ContributorStage::StoreUser { contributor, .. },
            ContributorEvent::UserStored(user),
        ) => user_found(s, contributor, user),
        (
            ContributorStage::RecordContributions { contributor },
            ContributorEvent::Recorded,
        ) => ScanView { stage: contributor_at(s.contributors, contributor + 1), ..s },
        (ContributorStage::FindRepository, ContributorEvent::Error)
        | (ContributorStage::ListContributors, ContributorEvent::Error)
        | (ContributorStage::FindEmail { .. }, ContributorEvent::Error)
        | (ContributorStage::StoreUser { .. }, ContributorEvent::Error) => ScanView {
            stage: ContributorStage::Failed,
            ..s
        },
        _ => s,
    }
}

/// What is to be recorded, where something is: the repository, the user found last
/// and the number of the contributor's contributions.
pub open spec fn contribution_of(s: ScanView) -> Option<(Uuid, Uuid, i32)> {
    match s.stage {
        ContributorStage::RecordContributions { contributor } => Some(
            (
                s.repository_id->0,
                s.users.last().user_id,
                s.contributors[contributor].contributions,
            ),
        ),
        _ => None,
    }
}

/// What holds of the work at any time: the repository is known once contributors
/// are dealt with, the contributor in work is one of the list, there is a user to
/// record, and there are no more users than contributors dealt with.
pub open spec fn scan_wf(s: ScanView) -> bool {
    match s.stage {
        ContributorStage::FindRepository => s.users.len() == 0 && s.contributors.len() == 0,
        ContributorStage::Unregistered => s.users.len() == 0,
        ContributorStage::ListContributors => s.repository_id is Some && s.users.len() == 0,
        ContributorStage::FindUser { contributor } => s.repository_id is Some && s.users.len()
            <= contributor < s.contributors.len(),
        ContributorStage::FetchDetails { contributor } => s.repository_id is Some && s.users.len()
            <= contributor < s.contributors.len(),
        ContributorStage::FindEmail { contributor } => s.repository_id is Some && s.users.len()
            <= contributor < s.contributors.len(),
        ContributorStage::StoreUser { contributor, .. } => s.repository_id is Some && s.users.len()
            <= contributor < s.contributors.len(),
        ContributorStage::RecordContributions { contributor } => s.repository_id is Some && 0
            < s.users.len() <= contributor + 1 <= s.contributors.len(),
        ContributorStage::AnalyzeLocations => s.repository_id is Some && s.users.len()
            <= s.contributors.len(),
        ContributorStage::Failed => s.users.len() <= s.contributors.len(),
    }
}

/// Whatever happens, the work on the contributors stays well-formed.
pub proof fn law_scan_wf(
    s: ScanView,
    event: ContributorEvent<Seq<crate::model::ContributorView>, crate::model::UserView, Seq<char>>,
)
    requires
        scan_wf(s),
    ensures
        scan_wf(scan_step(s, event)),
{
}

/// The stage for the contributor at `at`, or for what follows the last one.
fn seek_contributor(contributors: &Vec<Contributor>, at: usize) -> (r: ContributorStage<
    usize,
    String,
>)
    ensures
        stage_view(r) == contributor_at(contributor_views(contributors@), at as int),
{
    if at < contributors.len() {
        ContributorStage::FindUser { contributor: at }
    } else {
        ContributorStage::AnalyzeLocations
    }
}

/// Starts the work on the contributors of the repository `repo` of `owner`.
pub fn analyze_git_contributors(owner: String, repo: String) -> (r: ContributorScan)
    ensures
        scan_wf(r@),
        r@ == scan_start(owner@, repo@),
{
    let r = ContributorScan {
        owner,
        repo,
        repository_id: None,
        contributors: Vec::new(),
        users: Vec::new(),
        stage: ContributorStage::FindRepository,
    };
    assert(r@ =~= scan_start(owner@, repo@));
    r
}

impl ContributorScan {
    /// What is to be done next, or how the work ended.
    pub fn stage(&self) -> (r: &ContributorStage<usize, String>)
        ensures
            stage_view(*r) == self@.stage,
    {
        &self.stage
    }

    /// The owner of the repository.
    pub fn owner(&self) -> (r: &String)
        ensures
            r@ == self@.owner,
    {
        &self.owner
    }

    /// The name of the repository.
    pub fn repo(&self) -> (r: &String)
        ensures
            r@ == self@.repo,
    {
        &self.repo
    }

    /// The repository in work, once it is known.
    pub fn repository_id(&self) -> (r: Option<Uuid>)
        ensures
            r == self@.repository_id,
    {
        self.repository_id
    }

    /// The contributors of the repository.
    pub fn contributors(&self) -> (r: &Vec<Contributor>)
        ensures
            contributor_views(r@) == self@.contributors,
    {
        &self.contributors
    }

    /// The users found so far, in the order of the contributors.
    pub fn users(&self) -> (r: &Vec<AnalyzedUser>)
        ensures
            crate::model::user_views(r@) == self@.users,
    {
        &self.users
    }

    /// The name of the contributor in work, as long as no user was found for them.
    pub fn login(&self) -> (r: Option<&String>)
        requires
            scan_wf(self@),
        ensures
            match self@.stage {
                ContributorStage::FindUser { contributor }
                | ContributorStage::FetchDetails { contributor }
                | ContributorStage::FindEmail { contributor }
                | ContributorStage::StoreUser { contributor, .. } => r is Some && r->0@
                    == self@.contributors[contributor].login,
                _ => r is None,
            },
    {
        match self.stage {
            ContributorStage::FindUser { contributor }
            | ContributorStage::FetchDetails { contributor }
            | ContributorStage::FindEmail { contributor }
            | ContributorStage::StoreUser { contributor, .. } => {
                assert(contributor_views(self.contributors@)[contributor as int]
                    == self.contributors@[contributor as int]@);
                Some(&self.contributors[contributor].login)
            },
            _ => None,
        }
    }

    /// What is to be recorded: the repository, the user found last and the number
    /// of the contributor's contributions.
    pub fn contribution(&self) -> (r: Option<(Uuid, Uuid, i32)>)
        requires
            scan_wf(self@),
        ensures
            r == contribution_of(self@),
    {
        match (&self.stage, self.repository_id) {
            (ContributorStage::RecordContributions { contributor }, Some(repository_id)) => {
                assert(contributor_views(self.contributors@)[*contributor as int]
                    == self.contributors@[*contributor as int]@);
                assert(crate::model::user_views(self.users@).last() == self.users@.last()@);
                let user = &self.users[self.users.len() - 1];
                Some((repository_id, user.user_id, self.contributors[*contributor].contributions))
            },
            _ => None,
        }
    }

    /// Hands the users found over to the analysis of their locations, once all
    /// contributors have been dealt with; clones lie below `base_dir`.
    pub fn into_location_analysis(self, base_dir: PathBuf) -> (r: Option<LocationAnalysis>)
        requires
            scan_wf(self@),
        ensures
            r is Some <==> self@.stage is AnalyzeLocations,
            r is Some ==> crate::locations::location_wf(r->0@),
            r is Some ==> r->0@ == crate::locations::location_start(
                base_dir,
                self@.owner,
                self@.repo,
                self@.repository_id->0,
                self@.users,
            ),
    {
        match (self.stage, self.repository_id) {
            (ContributorStage::AnalyzeLocations, Some(repository_id)) => Some(
                analyze_contributor_locations(
                    base_dir,
                    self.owner,
                    self.repo,
                    repository_id,
                    self.users,
                ),
            ),
            _ => None,
        }
    }

    /// Goes on with what came of the last stage. The lookup of a stored user is not
    /// allowed to fail.
    pub fn step(self, event: ContributorEvent<Vec<Contributor>, AnalyzedUser, String>) -> (r:
        ContributorScan)
        requires
            scan_wf(self@),
            !(self@.stage is FindUser && event is Error),
        ensures
            scan_wf(r@),
            r@ == scan_step(self@, event_view(event)),
    {
        proof {
            law_scan_wf(self@, event_view(event));
            assert(self.contributors.len() == self@.contributors.len());
        }
        let ghost before = self@;
        let ContributorScan {
            owner,
            repo,
            mut repository_id,
            mut contributors,
            mut users,
            stage,
        } = self;
        let stage = match (stage, event) {
            (ContributorStage::FindRepository, ContributorEvent::Repository(id)) => {
                if id.is_some() {
                    repository_id = id;
                    ContributorStage::ListContributors
                } else {
                    ContributorStage::Unregistered
                }
            },
            (ContributorStage::ListContributors, ContributorEvent::Contributors(list)) => {
                contributors = list;
                seek_contributor(&contributors, 0)
            },
            (ContributorStage::FindUser { contributor }, ContributorEvent::User(found)) => {
                match found {
                    Some(user) => {
                        users.push(user);
                        ContributorStage::RecordContributions { contributor }
                    },
                    None => ContributorStage::FetchDetails { contributor },
                }
            },
            (
                ContributorStage::FetchDetails { contributor },
                ContributorEvent::Details { is_bot },
            ) => {
                if is_bot {
                    seek_contributor(&contributors, contributor + 1)
                } else {
                    ContributorStage::FindEmail { contributor }
                }
            },
            (ContributorStage::FetchDetails { contributor }, ContributorEvent::NoDetails) => {
                seek_contributor(&contributors, contributor + 1)
            },
            (ContributorStage::FindEmail { contributor }, ContributorEvent::Email(email)) => {
                ContributorStage::StoreUser { contributor, commit_email: email }
            },
            (
                ContributorStage::StoreUser { contributor, .. },
                ContributorEvent::UserStored(user),
            ) => {
                users.push(user);
                ContributorStage::RecordContributions { contributor }
            },
            (
                ContributorStage::RecordContributions { contributor },
                ContributorEvent::Recorded,
            ) => { seek_contributor(&contributors, contributor + 1) },
            (ContributorStage::FindRepository, ContributorEvent::Error)
            | (ContributorStage::ListContributors, ContributorEvent::Error)
            | (ContributorStage::FindEmail { .. }, ContributorEvent::Error)
            | (ContributorStage::StoreUser { .. }, ContributorEvent::Error) => {
                ContributorStage::Failed
            },
            (stage, _) => stage,
        };
        let r = ContributorScan { owner, repo, repository_id, contributors, users, stage };
        assert(r@ =~= scan_step(before, event_view(event)));
        r
    }
}

/// The work after several events.
pub open spec fn scan_run(
    s: ScanView,
    events: Seq<
        ContributorEvent<Seq<crate::model::ContributorView>, crate::model::UserView, Seq<char>>,
    >,
) -> ScanView
    decreases events.len(),
{
    if events.len() == 0 {
        s
    } else {
        scan_step(scan_run(s, events.drop_last()), events.last())
    }
}

/// What is found out about a contributor.
pub enum Lookup {
    /// They are stored already.
    Known { user: crate::model::UserView },
    /// Their details cannot be had.
    Unavailable,
    /// They are a program.
    Bot,
    /// They are stored now.
    New { commit_email: Option<Seq<char>>, user: crate::model::UserView },
}

/// The events that answer the stages of the first contributors, given what is
/// found out about each.
pub open spec fn lookup_events(lookups: Seq<Lookup>) -> Seq<
    ContributorEvent<Seq<crate::model::ContributorView>, crate::model::UserView, Seq<char>>,
>
    decreases lookups.len(),
{
    if lookups.len() == 0 {
        Seq::empty()
    } else {
        let earlier = lookup_events(lookups.drop_last());
        match lookups.last() {
            Lookup::Known { user } => earlier.push(ContributorEvent::User(Some(user))).push(
                ContributorEvent::Recorded,
            ),
            Lookup::Unavailable => earlier.push(ContributorEvent::User(None)).push(
                ContributorEvent::NoDetails,
            ),
            Lookup::Bot => earlier.push(ContributorEvent::User(None)).push(
                ContributorEvent::Details { is_bot: true },
            ),
            Lookup::New { commit_email, user } => earlier.push(ContributorEvent::User(None)).push(
                ContributorEvent::Details { is_bot: false },
            ).push(ContributorEvent::Email(commit_email)).push(
                ContributorEvent::UserStored(user),
            ).push(ContributorEvent::Recorded),
        }
    }
}

/// The users among what was found out, in order.
pub open spec fn users_in(lookups: Seq<Lookup>) -> Seq<crate::model::UserView>
    decreases lookups.len(),
{
    if lookups.len() == 0 {
        Seq::empty()
    } else {
        let earlier = users_in(lookups.drop_last());
        match lookups.last() {
            Lookup::Known { user } => earlier.push(user),
            Lookup::New { user, .. } => earlier.push(user),
            _ => earlier,
        }
    }
}

/// One more event is one more step.
proof fn lemma_run_push(
    s: ScanView,
    events: Seq<
        ContributorEvent<Seq<crate::model::ContributorView>, crate::model::UserView, Seq<char>>,
    >,
    event: ContributorEvent<Seq<crate::model::ContributorView>, crate::model::UserView, Seq<char>>,
)
    ensures
        scan_run(s, events.push(event)) == scan_step(scan_run(s, events), event),
{
    assert(events.push(event).drop_last() =~= events);
}

/// Events in a row may be taken in two parts.
proof fn lemma_run_concat(
    s: ScanView,
    a: Seq<ContributorEvent<Seq<crate::model::ContributorView>, crate::model::UserView, Seq<char>>>,
    b: Seq<ContributorEvent<Seq<crate::model::ContributorView>, crate::model::UserView, Seq<char>>>,
)
    ensures
        scan_run(s, a + b) == scan_run(scan_run(s, a), b),
    decreases b.len(),
{
    if b.len() == 0 {
        assert(a + b =~= a);
    } else {
        assert((a + b).drop_last() =~= a + b.drop_last());
        lemma_run_concat(s, a, b.drop_last());
    }
}

/// Contributors are dealt with in order: those who are stored, before or now, are
/// the users found; those without details and programs are passed over.
pub proof fn law_contributors(s: ScanView, lookups: Seq<Lookup>)
    requires
        s.stage == contributor_at(s.contributors, 0),
        lookups.len() <= s.contributors.len(),
    ensures
        scan_run(s, lookup_events(lookups)) == (ScanView {
            users: s.users + users_in(lookups),
            stage: contributor_at(s.contributors, lookups.len() as int),
            ..s
        }),
    decreases lookups.len(),
{
    if lookups.len() == 0 {
        assert(s.users + users_in(lookups) =~= s.users);
    } else {
        let init = lookups.drop_last();
        law_contributors(s, init);
        let earlier = lookup_events(init);
        match lookups.last() {
            Lookup::Known { user } => {
                let e1 = ContributorEvent::User(Some(user));
                lemma_run_push(s, earlier, e1);
                lemma_run_push(s, earlier.push(e1), ContributorEvent::Recorded);
            },
            Lookup::Unavailable => {
                lemma_run_push(s, earlier, ContributorEvent::User(None));
                lemma_run_push(
                    s,
                    earlier.push(ContributorEvent::User(None)),
                    ContributorEvent::NoDetails,
                );
            },
            Lookup::Bot => {
                lemma_run_push(s, earlier, ContributorEvent::User(None));
                lemma_run_push(
                    s,
                    earlier.push(ContributorEvent::User(None)),
                    ContributorEvent::Details { is_bot: true },
                );
            },
            Lookup::New { commit_email, user } => {
                let e1 = earlier.push(ContributorEvent::User(None));
                let e2 = e1.push(ContributorEvent::Details { is_bot: false });
                let e3 = e2.push(ContributorEvent::Email(commit_email));
                let e4 = e3.push(ContributorEvent::UserStored(user));
                lemma_run_push(s, earlier, ContributorEvent::User(None));
                lemma_run_push(s, e1, ContributorEvent::Details { is_bot: false });
                lemma_run_push(s, e2, ContributorEvent::Email(commit_email));
                lemma_run_push(s, e3, ContributorEvent::UserStored(user));
                lemma_run_push(s, e4, ContributorEvent::Recorded);
            },
        }
        assert(scan_run(s, lookup_events(lookups)).users =~= s.users + users_in(lookups));
    }
}

/// The events of a whole run over a registered repository, given what is found out
/// about each contributor.
pub open spec fn scan_events(
    repository_id: Uuid,
    contributors: Seq<crate::model::ContributorView>,
    lookups: Seq<Lookup>,
) -> Seq<ContributorEvent<Seq<crate::model::ContributorView>, crate::model::UserView, Seq<char>>> {
    seq![
        ContributorEvent::Repository(Some(repository_id)),
        ContributorEvent::Contributors(contributors),
    ] + lookup_events(lookups)
}

/// The first two events lead to the first contributor.
proof fn lemma_scan_listed(
    owner: Seq<char>,
    repo: Seq<char>,
    repository_id: Uuid,
    contributors: Seq<crate::model::ContributorView>,
)
    ensures
        scan_run(
            scan_start(owner, repo),
            seq![
                ContributorEvent::Repository(Some(repository_id)),
                ContributorEvent::Contributors(contributors),
            ],
        ) == (ScanView {
            owner,
            repo,
            repository_id: Some(repository_id),
            contributors,
            users: Seq::empty(),
            stage: contributor_at(contributors, 0),
        }),
{
    let none: Seq<
        ContributorEvent<Seq<crate::model::ContributorView>, crate::model::UserView, Seq<char>>,
    > = Seq::empty();
    let e1 = ContributorEvent::Repository(Some(repository_id));
    let e2 = ContributorEvent::Contributors(contributors);
    assert(seq![e1, e2] =~= none.push(e1).push(e2));
    lemma_run_push(scan_start(owner, repo), none, e1);
    lemma_run_push(scan_start(owner, repo), none.push(e1), e2);
}

/// A whole run over a registered repository ends with the analysis of the users
/// found, in the order of the contributors.
pub proof fn law_scan_run(
    owner: Seq<char>,
    repo: Seq<char>,
    repository_id: Uuid,
    contributors: Seq<crate::model::ContributorView>,
    lookups: Seq<Lookup>,
)
    requires
        lookups.len() == contributors.len(),
    ensures
        scan_run(scan_start(owner, repo), scan_events(repository_id, contributors, lookups)) == (
        ScanView {
            owner,
            repo,
            repository_id: Some(repository_id),
            contributors,
            users: users_in(lookups),
            stage: ContributorStage::AnalyzeLocations,
        }),
{
    let first = seq![
        ContributorEvent::Repository(Some(repository_id)),
        ContributorEvent::Contributors(contributors),
    ];
    lemma_scan_listed(owner, repo, repository_id, contributors);
    lemma_run_concat(scan_start(owner, repo), first, lookup_events(lookups));
    law_contributors(scan_run(scan_start(owner, repo), first), lookups);
    assert(Seq::<crate::model::UserView>::empty() + users_in(lookups) =~= users_in(lookups));
}

/// What `contribution` hands out to be recorded over a run, in order.
pub open spec fn recorded(
    s: ScanView,
    events: Seq<
        ContributorEvent<Seq<crate::model::ContributorView>, crate::model::UserView, Seq<char>>,
    >,
) -> Seq<(Uuid, Uuid, i32)>
    decreases events.len(),
{
    if events.len() == 0 {
        Seq::empty()
    } else {
        let earlier = recorded(s, events.drop_last());
        match (contribution_of(scan_run(s, events.drop_last())), events.last()) {
            (Some(contribution), ContributorEvent::Recorded) => earlier.push(contribution),
            _ => earlier,
        }
    }
}

/// For each contributor who is stored, before or now: the repository, the user and
/// the number of that contributor's contributions, in the order of the contributors.
pub open spec fn contributions_in(
    repository_id: Uuid,
    contributors: Seq<crate::model::ContributorView>,
    lookups: Seq<Lookup>,
) -> Seq<(Uuid, Uuid, i32)>
    decreases lookups.len(),
{
    if lookups.len() == 0 {
        Seq::empty()
    } else {
        let earlier = contributions_in(repository_id, contributors, lookups.drop_last());
        let contributions = contributors[lookups.len() - 1].contributions;
        match lookups.last() {
            Lookup::Known { user } => earlier.push((repository_id, user.user_id, contributions)),
            Lookup::New { user, .. } => earlier.push((repository_id, user.user_id, contributions)),
            _ => earlier,
        }
    }
}

/// One more event may record one more contribution.
proof fn lemma_recorded_push(
    s: ScanView,
    events: Seq<
        ContributorEvent<Seq<crate::model::ContributorView>, crate::model::UserView, Seq<char>>,
    >,
    event: ContributorEvent<Seq<crate::model::ContributorView>, crate::model::UserView, Seq<char>>,
)
    ensures
        recorded(s, events.push(event)) == match (contribution_of(scan_run(s, events)), event) {
            (Some(contribution), ContributorEvent::Recorded) => recorded(s, events).push(
                contribution,
            ),
            _ => recorded(s, events),
        },
{
    assert(events.push(event).drop_last() =~= events);
}

/// What is recorded over events in two parts is what is recorded over each.
proof fn lemma_recorded_concat(
    s: ScanView,
    a: Seq<ContributorEvent<Seq<crate::model::ContributorView>, crate::model::UserView, Seq<char>>>,
    b: Seq<ContributorEvent<Seq<crate::model::ContributorView>, crate::model::UserView, Seq<char>>>,
)
    ensures
        recorded(s, a + b) == recorded(s, a) + recorded(scan_run(s, a), b),
    decreases b.len(),
{
    if b.len() == 0 {
        assert(a + b =~= a);
        assert(recorded(s, a) + recorded(scan_run(s, a), b) =~= recorded(s, a));
    } else {
        assert((a + b).drop_last() =~= a + b.drop_last());
        lemma_recorded_concat(s, a, b.drop_last());
        lemma_run_concat(s, a, b.drop_last());
        assert(recorded(s, a + b) =~= recorded(s, a) + recorded(scan_run(s, a), b));
    }
}

/// The contributions recorded for the first contributors.
proof fn lemma_recorded_lookups(s: ScanView, lookups: Seq<Lookup>)
    requires
        s.stage == contributor_at(s.contributors, 0),
        lookups.len() <= s.contributors.len(),
        s.repository_id is Some,
    ensures
        recorded(s, lookup_events(lookups)) == contributions_in(
            s.repository_id->0,
            s.contributors,
            lookups,
        ),
    decreases lookups.len(),
{
    if lookups.len() > 0 {
        let init = lookups.drop_last();
        lemma_recorded_lookups(s, init);
        law_contributors(s, init);
        let earlier = lookup_events(init);
        match lookups.last() {
            Lookup::Known { user } => {
                let e1 = ContributorEvent::User(Some(user));
                lemma_run_push(s, earlier, e1);
                lemma_recorded_push(s, earlier, e1);
                lemma_recorded_push(s, earlier.push(e1), ContributorEvent::Recorded);
            },
            Lookup::Unavailable => {
                lemma_recorded_push(s, earlier, ContributorEvent::User(None));
                lemma_recorded_push(
                    s,
                    earlier.push(ContributorEvent::User(None)),
                    ContributorEvent::NoDetails,
                );
            },
            Lookup::Bot => {
                lemma_recorded_push(s, earlier, ContributorEvent::User(None));
                lemma_recorded_push(
                    s,
                    earlier.push(ContributorEvent::User(None)),
                    ContributorEvent::Details { is_bot: true },
                );
            },
            Lookup::New { commit_email, user } => {
                let e1 = earlier.push(ContributorEvent::User(None));
                let e2 = e1.push(ContributorEvent::Details { is_bot: false });
                let e3 = e2.push(ContributorEvent::Email(commit_email));
                let e4 = e3.push(ContributorEvent::UserStored(user));
                lemma_run_push(s, earlier, ContributorEvent::User(None));
                lemma_run_push(s, e1, ContributorEvent::Details { is_bot: false });
                lemma_run_push(s, e2, ContributorEvent::Email(commit_email));
                lemma_run_push(s, e3, ContributorEvent::UserStored(user));
                lemma_recorded_push(s, earlier, ContributorEvent::User(None));
                lemma_recorded_push(s, e1, ContributorEvent::Details { is_bot: false });
                lemma_recorded_push(s, e2, ContributorEvent::Email(commit_email));
                lemma_recorded_push(s, e3, ContributorEvent::UserStored(user));
                lemma_recorded_push(s, e4, ContributorEvent::Recorded);
            },
        }
    }
}

/// What is handed out to be recorded over a whole run is exactly one entry for each
/// contributor who is not passed over, in order: the repository, the user found for
/// that contributor and the number of that contributor's contributions.
pub proof fn law_recorded(
    owner: Seq<char>,
    repo: Seq<char>,
    repository_id: Uuid,
    contributors: Seq<crate::model::ContributorView>,
    lookups: Seq<Lookup>,
)
    requires
        lookups.len() == contributors.len(),
    ensures
        recorded(scan_start(owner, repo), scan_events(repository_id, contributors, lookups))
            == contributions_in(repository_id, contributors, lookups),
{
    let first = seq![
        ContributorEvent::Repository(Some(repository_id)),
        ContributorEvent::Contributors(contributors),
    ];
    let none: Seq<
        ContributorEvent<Seq<crate::model::ContributorView>, crate::model::UserView, Seq<char>>,
    > = Seq::empty();
    let s = scan_start(owner, repo);
    assert(first =~= none.push(first[0]).push(first[1]));
    lemma_recorded_push(s, none, first[0]);
    lemma_recorded_push(s, none.push(first[0]), first[1]);
    lemma_scan_listed(owner, repo, repository_id, contributors);
    lemma_recorded_concat(s, first, lookup_events(lookups));
    lemma_recorded_lookups(scan_run(s, first), lookups);
    assert(recorded(s, scan_events(repository_id, contributors, lookups)) =~= contributions_in(
        repository_id,
        contributors,
        lookups,
    ));
}

/// Whatever happens, the repository asked about stays the same.
pub proof fn law_same_repository(
    s: ScanView,
    events: Seq<
        ContributorEvent<Seq<crate::model::ContributorView>, crate::model::UserView, Seq<char>>,
    >,
)
    ensures
        scan_run(s, events).owner == s.owner,
        scan_run(s, events).repo == s.repo,
    decreases events.len(),
{
    if events.len() > 0 {
        law_same_repository(s, events.drop_last());
    }
}

/// Work that has ended stays as it is.
pub proof fn law_scan_ended(
    s: ScanView,
    event: ContributorEvent<Seq<crate::model::ContributorView>, crate::model::UserView, Seq<char>>,
)
    requires
        s.stage is AnalyzeLocations || s.stage is Unregistered || s.stage is Failed,
    ensures
        scan_step(s, event) == s,
{
}

/// An error ends the work where the rest depends on what was asked: the repository,
/// its contributors, or a new contributor's address or storage.
pub proof fn law_scan_error(s: ScanView)
    requires
        s.stage is FindRepository || s.stage is ListContributors || s.stage is FindEmail
            || s.stage is StoreUser,
    ensures
        scan_step(s, ContributorEvent::Error) == (ScanView { stage: ContributorStage::Failed, ..s }),
{
}

/// Work starts with the search for the repository, with nothing found.
pub proof fn law_scan_start(owner: Seq<char>, repo: Seq<char>)
    ensures
        scan_start(owner, repo).owner == owner,
        scan_start(owner, repo).repo == repo,
        scan_start(owner, repo).repository_id is None,
        scan_start(owner, repo).contributors.len() == 0,
        scan_start(owner, repo).users.len() == 0,
        scan_start(owner, repo).stage is FindRepository,
{
}

/// A registered repository has its contributors listed; one that is not registered
/// ends the work.
pub proof fn law_repository_found(s: ScanView, id: Uuid)
    requires
        s.stage is FindRepository,
    ensures
        ({
            let after = scan_step(s, ContributorEvent::Repository(Some(id)));
            &&& after.stage is ListContributors
            &&& after.repository_id == Some(id)
            &&& after.contributors == s.contributors
            &&& after.users == s.users
        }),
        scan_step(s, ContributorEvent::Repository(None)) == (ScanView {
            stage: ContributorStage::Unregistered,
            ..s
        }),
{
}

/// The contributors listed are dealt with from the first on; without any, the
/// analysis follows at once.
pub proof fn law_contributors_listed(s: ScanView, list: Seq<crate::model::ContributorView>)
    requires
        s.stage is ListContributors,
    ensures
        ({
            let after = scan_step(s, ContributorEvent::Contributors(list));
            &&& after.contributors == list
            &&& after.users == s.users
            &&& after.repository_id == s.repository_id
            &&& list.len() > 0 ==> after.stage == (ContributorStage::<int, Seq<char>>::FindUser {
                contributor: 0,
            })
            &&& list.len() == 0 ==> after.stage is AnalyzeLocations
        }),
{
}

/// The contributor after one is the next of the list; after the last the analysis
/// follows.
pub proof fn law_contributor_at(contributors: Seq<crate::model::ContributorView>, at: int)
    ensures
        at < contributors.len() ==> contributor_at(contributors, at) == (ContributorStage::<
            int,
            Seq<char>,
        >::FindUser { contributor: at }),
        at >= contributors.len() ==> contributor_at(contributors, at) is AnalyzeLocations,
{
}

/// A contributor who is stored is taken as they are stored, behind the users found
/// before, and their contributions are recorded; one who is not has their details
/// fetched.
pub proof fn law_user_lookup(s: ScanView, contributor: int, user: crate::model::UserView)
    requires
        s.stage == (ContributorStage::<int, Seq<char>>::FindUser { contributor }),
    ensures
        ({
            let after = scan_step(s, ContributorEvent::User(Some(user)));
            &&& after.users == s.users.push(user)
            &&& after.stage == (ContributorStage::<int, Seq<char>>::RecordContributions {
                contributor,
            })
            &&& after.contributors == s.contributors
            &&& after.repository_id == s.repository_id
        }),
        scan_step(s, ContributorEvent::User(None)) == (ScanView {
            stage: ContributorStage::FetchDetails { contributor },
            ..s
        }),
{
}

/// A program, and a contributor whose details cannot be had, is passed over; of
/// anyone else the address is searched for.
pub proof fn law_details(s: ScanView, contributor: int)
    requires
        s.stage == (ContributorStage::<int, Seq<char>>::FetchDetails { contributor }),
    ensures
        scan_step(s, ContributorEvent::Details { is_bot: true }) == (ScanView {
            stage: contributor_at(s.contributors, contributor + 1),
            ..s
        }),
        scan_step(s, ContributorEvent::NoDetails) == (ScanView {
            stage: contributor_at(s.contributors, contributor + 1),
            ..s
        }),
        scan_step(s, ContributorEvent::Details { is_bot: false }) == (ScanView {
            stage: ContributorStage::FindEmail { contributor },
            ..s
        }),
{
}

/// A new contributor is stored with exactly the address found for them, and with none
/// where none was found.
pub proof fn law_stored_with_email_found(s: ScanView, contributor: int, email: Option<Seq<char>>)
    requires
        s.stage == (ContributorStage::<int, Seq<char>>::FindEmail { contributor }),
    ensures
        scan_step(s, ContributorEvent::Email(email)) == (ScanView {
            stage: ContributorStage::StoreUser { contributor, commit_email: email },
            ..s
        }),
{
}

/// A new contributor is taken as they were stored, behind the users found before, and
/// their contributions are recorded.
pub proof fn law_user_stored(
    s: ScanView,
    contributor: int,
    commit_email: Option<Seq<char>>,
    user: crate::model::UserView,
)
    requires
        s.stage == (ContributorStage::StoreUser { contributor, commit_email }),
    ensures
        ({
            let after = scan_step(s, ContributorEvent::UserStored(user));
            &&& after.users == s.users.push(user)
            &&& after.stage == (ContributorStage::<int, Seq<char>>::RecordContributions {
                contributor,
            })
            &&& after.contributors == s.contributors
            &&& after.repository_id == s.repository_id
        }),
{
}

/// Once contributions are recorded, the very next contributor follows.
pub proof fn law_recorded_then_next(s: ScanView, contributor: int)
    requires
        s.stage == (ContributorStage::<int, Seq<char>>::RecordContributions { contributor }),
    ensures
        scan_step(s, ContributorEvent::Recorded) == (ScanView {
            stage: contributor_at(s.contributors, contributor + 1),
            ..s
        }),
{
}

/// An answer that does not fit the stage changes nothing.
pub proof fn law_unasked_answer(s: ScanView, event: ContributorEvent<Seq<crate::model::ContributorView>, crate::model::UserView, Seq<char>>)
    requires
        event is Repository ==> !(s.stage is FindRepository),
        event is Contributors ==> !(s.stage is ListContributors),
        event is User ==> !(s.stage is FindUser),
        event is Details ==> !(s.stage is FetchDetails),
        event is NoDetails ==> !(s.stage is FetchDetails),
        event is Email ==> !(s.stage is FindEmail),
        event is UserStored ==> !(s.stage is StoreUser),
        event is Recorded ==> !(s.stage is RecordContributions),
        event is Error ==> !(s.stage is FindRepository) && !(s.stage is ListContributors) && !(
        s.stage is FindEmail) && !(s.stage is StoreUser),
    ensures
        scan_step(s, event) == s,
{
}

/// What is to be recorded are the contributions of the contributor at hand, for the
/// user found last and the repository in work.
pub proof fn law_contribution_of(s: ScanView)
    ensures
        contribution_of(s) is Some <==> s.stage is RecordContributions,
        s.stage matches ContributorStage::RecordContributions { contributor } ==> contribution_of(s)
            == Some(
            (
                s.repository_id->0,
                s.users.last().user_id,
                s.contributors[contributor].contributions,
            ),
        ),
{
}

/// The addresses with which contributors are handed out to be stored over a run, in
/// order.
pub open spec fn stored_emails(s: ScanView, events: Seq<ContributorEvent<Seq<crate::model::ContributorView>, crate::model::UserView, Seq<char>>>) -> Seq<Option<Seq<char>>>
    decreases events.len(),
{
    if events.len() == 0 {
        Seq::empty()
    } else {
        let earlier = stored_emails(s, events.drop_last());
        match (scan_run(s, events.drop_last()).stage, events.last()) {
            (
                ContributorStage::StoreUser { commit_email, .. },
                ContributorEvent::UserStored(_),
            ) => earlier.push(commit_email),
            _ => earlier,
        }
    }
}

/// The addresses found for new contributors, in order.
pub open spec fn emails_found(lookups: Seq<Lookup>) -> Seq<Option<Seq<char>>>
    decreases lookups.len(),
{
    if lookups.len() == 0 {
        Seq::empty()
    } else {
        let earlier = emails_found(lookups.drop_last());
        match lookups.last() {
            Lookup::New { commit_email, .. } => earlier.push(commit_email),
            _ => earlier,
        }
    }
}

/// One more event may store one more contributor.
proof fn lemma_emails_push(s: ScanView, events: Seq<ContributorEvent<Seq<crate::model::ContributorView>, crate::model::UserView, Seq<char>>>, event: ContributorEvent<Seq<crate::model::ContributorView>, crate::model::UserView, Seq<char>>)
    ensures
        stored_emails(s, events.push(event)) == match (scan_run(s, events).stage, event) {
            (
                ContributorStage::StoreUser { commit_email, .. },
                ContributorEvent::UserStored(_),
            ) => stored_emails(s, events).push(commit_email),
            _ => stored_emails(s, events),
        },
{
    assert(events.push(event).drop_last() =~= events);
}

/// New contributors are stored in the order of the contributors, each with exactly
/// the address found for them; nobody else is stored.
pub proof fn law_stored_emails(s: ScanView, lookups: Seq<Lookup>)
    requires
        s.stage == contributor_at(s.contributors, 0),
        lookups.len() <= s.contributors.len(),
    ensures
        stored_emails(s, lookup_events(lookups)) == emails_found(lookups),
    decreases lookups.len(),
{
    if lookups.len() > 0 {
        let init = lookups.drop_last();
        law_stored_emails(s, init);
        law_contributors(s, init);
        let earlier = lookup_events(init);
        match lookups.last() {
            Lookup::Known { user } => {
                let e1 = ContributorEvent::User(Some(user));
                lemma_emails_push(s, earlier, e1);
                lemma_emails_push(s, earlier.push(e1), ContributorEvent::Recorded);
            },
            Lookup::Unavailable => {
                lemma_emails_push(s, earlier, ContributorEvent::User(None));
                lemma_emails_push(
                    s,
                    earlier.push(ContributorEvent::User(None)),
                    ContributorEvent::NoDetails,
                );
            },
            Lookup::Bot => {
                lemma_emails_push(s, earlier, ContributorEvent::User(None));
                lemma_emails_push(
                    s,
                    earlier.push(ContributorEvent::User(None)),
                    ContributorEvent::Details { is_bot: true },
                );
            },
            Lookup::New { commit_email, user } => {
                let e1 = earlier.push(ContributorEvent::User(None));
                let e2 = e1.push(ContributorEvent::Details { is_bot: false });
                let e3 = e2.push(ContributorEvent::Email(commit_email));
                let e4 = e3.push(ContributorEvent::UserStored(user));
                lemma_run_push(s, earlier, ContributorEvent::User(None));
                lemma_run_push(s, e1, ContributorEvent::Details { is_bot: false });
                lemma_run_push(s, e2, ContributorEvent::Email(commit_email));
                lemma_emails_push(s, earlier, ContributorEvent::User(None));
                lemma_emails_push(s, e1, ContributorEvent::Details { is_bot: false });
                lemma_emails_push(s, e2, ContributorEvent::Email(commit_email));
                lemma_emails_push(s, e3, ContributorEvent::UserStored(user));
                lemma_emails_push(s, e4, ContributorEvent::Recorded);
            },
        }
    }
}

/// The user of a contributor who is stored, before or now, stands among the users
/// found at the place given by the number of such contributors before.
pub proof fn law_user_of_contributor(lookups: Seq<Lookup>, i: int)
    requires
        0 <= i < lookups.len(),
        lookups[i] is Known || lookups[i] is New,
    ensures
        ({
            let place = Set::new(
                |j: int| 0 <= j < i && (lookups[j] is Known || lookups[j] is New),
            ).len() as int;
            &&& place < users_in(lookups).len()
            &&& lookups[i] is Known ==> users_in(lookups)[place] == lookups[i]->Known_user
            &&& lookups[i] is New ==> users_in(lookups)[place] == lookups[i]->New_user
        }),
    decreases lookups.len(),
{
    let init = lookups.drop_last();
    let before = Set::new(|j: int| 0 <= j < i && (lookups[j] is Known || lookups[j] is New));
    if i < lookups.len() - 1 {
        law_user_of_contributor(init, i);
        assert(before =~= Set::new(|j: int| 0 <= j < i && (init[j] is Known || init[j] is New)));
        assert(users_in(lookups)[before.len() as int] == users_in(init)[before.len() as int]);
    } else {
        law_user_count(init);
        assert(before =~= Set::new(
            |j: int| 0 <= j < init.len() && (init[j] is Known || init[j] is New),
        ));
    }
}

/// There are as many users found as contributors who are stored, before or now.
pub proof fn law_user_count(lookups: Seq<Lookup>)
    ensures
        Set::new(
            |j: int| 0 <= j < lookups.len() && (lookups[j] is Known || lookups[j] is New),
        ).finite(),
        users_in(lookups).len() == Set::new(
            |j: int| 0 <= j < lookups.len() && (lookups[j] is Known || lookups[j] is New),
        ).len(),
    decreases lookups.len(),
{
    let here = Set::new(
        |j: int| 0 <= j < lookups.len() && (lookups[j] is Known || lookups[j] is New),
    );
    if lookups.len() == 0 {
        assert(here =~= Set::empty());
    } else {
        let init = lookups.drop_last();
        let before = Set::new(
            |j: int| 0 <= j < init.len() && (init[j] is Known || init[j] is New),
        );
        law_user_count(init);
        if lookups.last() is Known || lookups.last() is New {
            assert(here =~= before.insert(lookups.len() - 1));
        } else {
            assert(here =~= before);
        }
    }
}

/// What a stage and an event are in specifications: the same, with what they hold.
pub proof fn law_scan_views(
    contributor: usize,
    email: Option<String>,
    id: Option<Uuid>,
    list: Vec<Contributor>,
    user: AnalyzedUser,
    is_bot: bool,
)
    ensures
        stage_view(ContributorStage::FindRepository) is FindRepository,
        stage_view(ContributorStage::ListContributors) is ListContributors,
        stage_view(ContributorStage::FindUser { contributor }) == (ContributorStage::<
            int,
            Seq<char>,
        >::FindUser { contributor: contributor as int }),
        stage_view(ContributorStage::FetchDetails { contributor }) == (ContributorStage::<
            int,
            Seq<char>,
        >::FetchDetails { contributor: contributor as int }),
        stage_view(ContributorStage::FindEmail { contributor }) == (ContributorStage::<
            int,
            Seq<char>,
        >::FindEmail { contributor: contributor as int }),
        stage_view(ContributorStage::StoreUser { contributor, commit_email: email })
            == (ContributorStage::StoreUser {
            contributor: contributor as int,
            commit_email: crate::text::optional_text(email),
        }),
        stage_view(ContributorStage::RecordContributions { contributor }) == (ContributorStage::<
            int,
            Seq<char>,
        >::RecordContributions { contributor: contributor as int }),
        stage_view(ContributorStage::AnalyzeLocations) is AnalyzeLocations,
        stage_view(ContributorStage::Unregistered) is Unregistered,
        stage_view(ContributorStage::Failed) is Failed,
        event_view(ContributorEvent::Repository(id)) == ContributorEvent::<
            Seq<crate::model::ContributorView>,
            crate::model::UserView,
            Seq<char>,
        >::Repository(id),
        event_view(ContributorEvent::Contributors(list)) == ContributorEvent::<
            Seq<crate::model::ContributorView>,
            crate::model::UserView,
            Seq<char>,
        >::Contributors(
            contributor_views(list@),
        ),
        event_view(ContributorEvent::User(Some(user))) == ContributorEvent::<
            Seq<crate::model::ContributorView>,
            crate::model::UserView,
            Seq<char>,
        >::User(Some(user@)),
        event_view(ContributorEvent::User(None)) == ContributorEvent::<
            Seq<crate::model::ContributorView>,
            crate::model::UserView,
            Seq<char>,
        >::User(None),
        event_view(ContributorEvent::Details { is_bot }) == (ContributorEvent::<
            Seq<crate::model::ContributorView>,
            crate::model::UserView,
            Seq<char>,
        >::Details { is_bot }),
        event_view(ContributorEvent::NoDetails) is NoDetails,
        event_view(ContributorEvent::Email(email)) == ContributorEvent::<
            Seq<crate::model::ContributorView>,
            crate::model::UserView,
            Seq<char>,
        >::Email(
            crate::text::optional_text(email),
        ),
        event_view(ContributorEvent::UserStored(user)) == ContributorEvent::<
            Seq<crate::model::ContributorView>,
            crate::model::UserView,
            Seq<char>,
        >::UserStored(user@),
        event_view(ContributorEvent::Recorded) is Recorded,
        event_view(ContributorEvent::Error) is Error,
{
}

/// The views of a list of contributors are theirs, one for one.
pub proof fn law_contributor_views(list: Seq<Contributor>)
    ensures
        contributor_views(list).len() == list.len(),
        forall|i: int| 0 <= i < list.len() ==> #[trigger] contributor_views(list)[i] == list[i]@,
{
}

/// What is stored over events in two parts is what is stored over each.
proof fn lemma_emails_concat(
    s: ScanView,
    a: Seq<ContributorEvent<Seq<crate::model::ContributorView>, crate::model::UserView, Seq<char>>>,
    b: Seq<ContributorEvent<Seq<crate::model::ContributorView>, crate::model::UserView, Seq<char>>>,
)
    ensures
        stored_emails(s, a + b) == stored_emails(s, a) + stored_emails(scan_run(s, a), b),
    decreases b.len(),
{
    if b.len() == 0 {
        assert(a + b =~= a);
        assert(stored_emails(s, a) + stored_emails(scan_run(s, a), b) =~= stored_emails(s, a));
    } else {
        assert((a + b).drop_last() =~= a + b.drop_last());
        lemma_emails_concat(s, a, b.drop_last());
        lemma_run_concat(s, a, b.drop_last());
        assert(stored_emails(s, a + b) =~= stored_emails(s, a) + stored_emails(scan_run(s, a), b));
    }
}

/// Over a whole run over a registered repository, contributors are stored with
/// exactly the addresses found for the new ones, in order.
pub proof fn law_stored_emails_run(
    owner: Seq<char>,
    repo: Seq<char>,
    repository_id: Uuid,
    contributors: Seq<crate::model::ContributorView>,
    lookups: Seq<Lookup>,
)
    requires
        lookups.len() == contributors.len(),
    ensures
        stored_emails(scan_start(owner, repo), scan_events(repository_id, contributors, lookups))
            == emails_found(lookups),
{
    let first = seq![
        ContributorEvent::Repository(Some(repository_id)),
        ContributorEvent::Contributors(contributors),
    ];
    let none: Seq<
        ContributorEvent<Seq<crate::model::ContributorView>, crate::model::UserView, Seq<char>>,
    > = Seq::empty();
    let s = scan_start(owner, repo);
    assert(first =~= none.push(first[0]).push(first[1]));
    lemma_emails_push(s, none, first[0]);
    lemma_emails_push(s, none.push(first[0]), first[1]);
    lemma_scan_listed(owner, repo, repository_id, contributors);
    lemma_emails_concat(s, first, lookup_events(lookups));
    law_stored_emails(scan_run(s, first), lookups);
    assert(stored_emails(s, scan_events(repository_id, contributors, lookups)) =~= emails_found(
        lookups,
    ));
}

/// There are as many addresses, missing ones counted, as new contributors.
pub proof fn law_email_count(lookups: Seq<Lookup>)
    ensures
        Set::new(|j: int| 0 <= j < lookups.len() && lookups[j] is New).finite(),
        emails_found(lookups).len() == Set::new(
            |j: int| 0 <= j < lookups.len() && lookups[j] is New,
        ).len(),
    decreases lookups.len(),
{
    let here = Set::new(|j: int| 0 <= j < lookups.len() && lookups[j] is New);
    if lookups.len() == 0 {
        assert(here =~= Set::empty());
    } else {
        let init = lookups.drop_last();
        let before = Set::new(|j: int| 0 <= j < init.len() && init[j] is New);
        law_email_count(init);
        if lookups.last() is New {
            assert(here =~= before.insert(lookups.len() - 1));
        } else {
            assert(here =~= before);
        }
    }
}

/// The address of a new contributor stands among those found at the place given by
/// the number of new contributors before.
pub proof fn law_email_of_new(lookups: Seq<Lookup>, i: int)
    requires
        0 <= i < lookups.len(),
        lookups[i] is New,
    ensures
        ({
            let place = Set::new(|j: int| 0 <= j < i && lookups[j] is New).len() as int;
            &&& place < emails_found(lookups).len()
            &&& emails_found(lookups)[place] == lookups[i]->commit_email
        }),
    decreases lookups.len(),
{
    let init = lookups.drop_last();
    let before = Set::new(|j: int| 0 <= j < i && lookups[j] is New);
    if i < lookups.len() - 1 {
        law_email_of_new(init, i);
        assert(before =~= Set::new(|j: int| 0 <= j < i && init[j] is New));
        assert(emails_found(lookups)[before.len() as int] == emails_found(
            init,
        )[before.len() as int]);
    } else {
        law_email_count(init);
        assert(before =~= Set::new(|j: int| 0 <= j < init.len() && init[j] is New));
    }
}

/// One contribution is recorded for each user found: for the repository, for that
/// user, and with the number of that very contributor.
pub proof fn law_contribution_of_contributor(
    repository_id: Uuid,
    contributors: Seq<crate::model::ContributorView>,
    lookups: Seq<Lookup>,
    i: int,
)
    requires
        lookups.len() <= contributors.len(),
        0 <= i < lookups.len(),
        lookups[i] is Known || lookups[i] is New,
    ensures
        contributions_in(repository_id, contributors, lookups).len() == users_in(lookups).len(),
        ({
            let place = Set::new(
                |j: int| 0 <= j < i && (lookups[j] is Known || lookups[j] is New),
            ).len() as int;
            &&& place < users_in(lookups).len()
            &&& contributions_in(repository_id, contributors, lookups)[place] == (
                repository_id,
                users_in(lookups)[place].user_id,
                contributors[i].contributions,
            )
        }),
    decreases lookups.len(),
{
    let init = lookups.drop_last();
    let before = Set::new(|j: int| 0 <= j < i && (lookups[j] is Known || lookups[j] is New));
    let place = before.len() as int;
    lemma_contribution_count(repository_id, contributors, lookups);
    lemma_contribution_count(repository_id, contributors, init);
    if i < lookups.len() - 1 {
        law_contribution_of_contributor(repository_id, contributors, init, i);
        assert(before =~= Set::new(|j: int| 0 <= j < i && (init[j] is Known || init[j] is New)));
        assert(contributions_in(repository_id, contributors, lookups)[place] == contributions_in(
            repository_id,
            contributors,
            init,
        )[place]);
        assert(users_in(lookups)[place] == users_in(init)[place]);
    } else {
        law_user_count(init);
        assert(before =~= Set::new(
            |j: int| 0 <= j < init.len() && (init[j] is Known || init[j] is New),
        ));
    }
}

/// There are as many contributions to record as users found.
proof fn lemma_contribution_count(
    repository_id: Uuid,
    contributors: Seq<crate::model::ContributorView>,
    lookups: Seq<Lookup>,
)
    ensures
        contributions_in(repository_id, contributors, lookups).len() == users_in(lookups).len(),
    decreases lookups.len(),
{
    if lookups.len() > 0 {
        lemma_contribution_count(repository_id, contributors, lookups.drop_last());
    }
}

} // verus!
