//! Where the contributors of a repository work: the clone is brought up to date,
//! then each contributor's commits are analysed and the findings stored.

use std::path::PathBuf;

use uuid::Uuid;
use vstd::prelude::*;

use crate::git::{clone_args, fetch_args, shallow_args};
use crate::model::AnalyzedUser;
use crate::repository::repository_subdir;
use crate::text::same_text;
use crate::timezone::ContributorAnalysis;

verus! {

/// What is to be done next, or how the work ended. `I` is the type of a position
/// in the list of users, `A` that of an analysis.
#[derive(Debug)]
pub enum LocationStage<I, A> {
    /// Does the base directory exist?
    CheckBaseDir,
    /// Create the base directory.
    CreateBaseDir,
    /// Does the directory of the clone exist?
    CheckTargetDir,
    /// Does the parent of the clone's directory exist?
    CheckParentDir,
    /// Create the parent of the clone's directory.
    CreateParentDir,
    /// Clone the repository.
    CloneRepository,
    /// Is the clone shallow?
    CheckShallow,
    /// Complete the history of the shallow clone.
    FetchHistory,
    /// Analyse the time zone of a user.
    AnalyzeUser { user: I },
    /// Store the analysis of a user.
    StoreLocation { user: I, analysis: A },
    /// All users have been dealt with.
    Completed,
    /// The repository could not be cloned: nobody was analysed.
    Skipped,
    /// A directory could not be created.
    Failed,
}

/// What came of the last stage.
#[derive(Debug)]
pub enum LocationEvent<A> {
    /// Whether the directory in question exists.
    Exists(bool),
    /// Whether the directory could be created.
    Created(bool),
    /// Whether the repository was cloned.
    Cloned(bool),
    /// Whether the clone is shallow.
    Shallow(bool),
    /// The fetch has ended, in success or failure.
    Fetched,
    /// The analysis of the user, where there is one.
    Analyzed(Option<A>),
    /// Storing has ended, in success or failure.
    Stored,
}

/// `std::path::PathBuf`, carried through and never looked into.
#[verifier::external_type_specification]
#[verifier::external_body]
pub struct ExPathBuf(PathBuf);

/// The work on one repository, and how many of its contributors were found to
/// work in China and elsewhere.
pub struct LocationAnalysis {
    base_dir: PathBuf,
    owner: String,
    repo: String,
    repository_id: Uuid,
    users: Vec<AnalyzedUser>,
    china_contributors: usize,
    non_china_contributors: usize,
    stage: LocationStage<usize, ContributorAnalysis>,
}

/// What the work on a repository is in specifications.
pub struct LocationView {
    pub base_dir: PathBuf,
    pub owner: Seq<char>,
    pub repo: Seq<char>,
    pub repository_id: Uuid,
    pub users: Seq<crate::model::UserView>,
    pub china_contributors: nat,
    pub non_china_contributors: nat,
    pub stage: LocationStage<int, crate::timezone::AnalysisView>,
}

/// What a stage is in specifications.
pub open spec fn stage_view(stage: LocationStage<usize, ContributorAnalysis>) -> LocationStage<
    int,
    crate::timezone::AnalysisView,
> {
    match stage {
        LocationStage::CheckBaseDir => LocationStage::CheckBaseDir,
        LocationStage::CreateBaseDir => LocationStage::CreateBaseDir,
        LocationStage::CheckTargetDir => LocationStage::CheckTargetDir,
        LocationStage::CheckParentDir => LocationStage::CheckParentDir,
        LocationStage::CreateParentDir => LocationStage::CreateParentDir,
        LocationStage::CloneRepository => LocationStage::CloneRepository,
        LocationStage::CheckShallow => LocationStage::CheckShallow,
        LocationStage::FetchHistory => LocationStage::FetchHistory,
        LocationStage::AnalyzeUser { user } => LocationStage::AnalyzeUser { user: user as int },
        LocationStage::StoreLocation { user, analysis } => LocationStage::StoreLocation {
            user: user as int,
            analysis: analysis@,
        },
        LocationStage::Completed => LocationStage::Completed,
        LocationStage::Skipped => LocationStage::Skipped,
        LocationStage::Failed => LocationStage::Failed,
    }
}

/// What an event is in specifications.
pub open spec fn event_view(event: LocationEvent<ContributorAnalysis>) -> LocationEvent<
    crate::timezone::AnalysisView,
> {
    match event {
        LocationEvent::Exists(b) => LocationEvent::Exists(b),
        LocationEvent::Created(b) => LocationEvent::Created(b),
        LocationEvent::Cloned(b) => LocationEvent::Cloned(b),
        LocationEvent::Shallow(b) => LocationEvent::Shallow(b),
        LocationEvent::Fetched => LocationEvent::Fetched,
        LocationEvent::Analyzed(None) => LocationEvent::Analyzed(None),
        LocationEvent::Analyzed(Some(a)) => LocationEvent::Analyzed(Some(a@)),
        LocationEvent::Stored => LocationEvent::Stored,
    }
}

impl View for LocationAnalysis {
    type V = LocationView;

    closed spec fn view(&self) -> LocationView {
        LocationView {
            base_dir: self.base_dir,
            owner: self.owner@,
            repo: self.repo@,
            repository_id: self.repository_id,
            users: crate::model::user_views(self.users@),
            china_contributors: self.china_contributors as nat,
            non_china_contributors: self.non_china_contributors as nat,
            stage: stage_view(self.stage),
        }
    }
}

/// The stage for the first user at or after `from` with an address, if any.
pub open spec fn next_user(users: Seq<crate::model::UserView>, from: int) -> LocationStage<
    int,
    crate::timezone::AnalysisView,
>
    decreases users.len() - from,
{
    if from >= users.len() {
        LocationStage::Completed
    } else if crate::model::has_email(users[from]) {
        LocationStage::AnalyzeUser { user: from }
    } else {
        next_user(users, from + 1)
    }
}

/// Whether a contributor is counted among those who work in China.
pub open spec fn in_china(analysis: crate::timezone::AnalysisView) -> bool {
    analysis.common_timezone == "+08:00"@
}

/// The work on a repository before anything was done.
pub open spec fn location_start(
    base_dir: PathBuf,
    owner: Seq<char>,
    repo: Seq<char>,
    repository_id: Uuid,
    users: Seq<crate::model::UserView>,
) -> LocationView {
    LocationView {
        base_dir,
        owner,
        repo,
        repository_id,
        users,
        china_contributors: 0,
        non_china_contributors: 0,
        stage: LocationStage::CheckBaseDir,
    }
}

/// The stage that follows on `event`. An event that does not answer the stage
/// changes nothing.
pub open spec fn next_stage(
    s: LocationView,
    event: LocationEvent<crate::timezone::AnalysisView>,
) -> LocationStage<int, crate::timezone::AnalysisView> {
    match (s.stage, event) {
        (LocationStage::CheckBaseDir, LocationEvent::Exists(exists)) => if exists {
            LocationStage::CheckTargetDir
        } else {
            LocationStage::CreateBaseDir
        },
        (LocationStage::CreateBaseDir, LocationEvent::Created(created)) => if created {
            LocationStage::CheckTargetDir
        } else {
            LocationStage::Failed
        },
        (LocationStage::CheckTargetDir, LocationEvent::Exists(exists)) => if exists {
            LocationStage::CheckShallow
        } else {
            LocationStage::CheckParentDir
        },
        (LocationStage::CheckParentDir, LocationEvent::Exists(exists)) => if exists {
            LocationStage::CloneRepository
        } else {
            LocationStage::CreateParentDir
        },
        (LocationStage::CreateParentDir, LocationEvent::Created(created)) => if created {
            LocationStage::CloneRepository
        } else {
            LocationStage::Failed
        },
        (LocationStage::CloneRepository, LocationEvent::Cloned(cloned)) => if cloned {
            next_user(s.users, 0)
        } else {
            LocationStage::Skipped
        },
        (LocationStage::CheckShallow, LocationEvent::Shallow(shallow)) => if shallow {
            LocationStage::FetchHistory
        } else {
            next_user(s.users, 0)
        },
        (LocationStage::FetchHistory, LocationEvent::Fetched) => next_user(s.users, 0),
        (LocationStage::AnalyzeUser { user }, LocationEvent::Analyzed(None)) => next_user(
            s.users,
            user + 1,
        ),
        (
            LocationStage::AnalyzeUser { user },
            LocationEvent::Analyzed(Some(analysis)),
        ) => LocationStage::StoreLocation { user, analysis },
        (LocationStage::StoreLocation { user, .. }, LocationEvent::Stored) => next_user(
            s.users,
            user + 1,
        ),
        _ => s.stage,
    }
}

/// The work on a repository after `event`: a contributor is counted once their
/// analysis has been handed to the store.
pub open spec fn location_step(
    s: LocationView,
    event: LocationEvent<crate::timezone::AnalysisView>,
) -> LocationView {
    let stage = next_stage(s, event);
    match (s.stage, event) {
        (LocationStage::StoreLocation { analysis, .. }, LocationEvent::Stored) => if in_china(
            analysis,
        ) {
            LocationView { china_contributors: s.china_contributors + 1, stage, ..s }
        } else {
            LocationView { non_china_contributors: s.non_china_contributors + 1, stage, ..s }
        },
        _ => LocationView { stage, ..s },
    }
}

/// The directory of the clone, in the stages that work on it: the base directory,
/// and the path below it.
pub open spec fn target_of(s: LocationView) -> Option<(PathBuf, Seq<char>)> {
    match s.stage {
        LocationStage::CheckTargetDir
        | LocationStage::CheckParentDir
        | LocationStage::CreateParentDir
        | LocationStage::CloneRepository
        | LocationStage::CheckShallow
        | LocationStage::FetchHistory
        | LocationStage::AnalyzeUser { .. } => Some(
            (s.base_dir, crate::repository::subdir(s.owner, s.repo)),
        ),
        _ => None,
    }
}

/// What is to be stored, where something is: the repository, the user and their
/// analysis.
pub open spec fn location_of(s: LocationView) -> Option<
    (Uuid, Uuid, crate::timezone::AnalysisView),
> {
    match s.stage {
        LocationStage::StoreLocation { user, analysis } => Some(
            (s.repository_id, s.users[user].user_id, analysis),
        ),
        _ => None,
    }
}

/// What holds of the work on a repository at any time: the user in work is one of
/// the list and has an address, and only users before them have been counted.
pub open spec fn location_wf(s: LocationView) -> bool {
    let counted = s.china_contributors + s.non_china_contributors;
    match s.stage {
        LocationStage::AnalyzeUser { user } => 0 <= user < s.users.len() && counted <= user
            && crate::model::has_email(s.users[user]),
        LocationStage::StoreLocation { user, .. } => 0 <= user < s.users.len() && counted <= user
            && crate::model::has_email(s.users[user]),
        LocationStage::Completed => counted <= s.users.len(),
        _ => counted == 0,
    }
}

/// The stage for the next user is one of the list, with an address, at or after `from`.
proof fn lemma_next_user(users: Seq<crate::model::UserView>, from: int)
    requires
        0 <= from <= users.len(),
    ensures
        match next_user(users, from) {
            LocationStage::AnalyzeUser { user } => from <= user < users.len()
                && crate::model::has_email(users[user]),
            LocationStage::Completed => true,
            _ => false,
        },
    decreases users.len() - from,
{
    if from < users.len() && !crate::model::has_email(users[from]) {
        lemma_next_user(users, from + 1);
    }
}

/// Whatever happens, the work on a repository stays well-formed.
pub proof fn law_location_wf(
    s: LocationView,
    event: LocationEvent<crate::timezone::AnalysisView>,
)
    requires
        location_wf(s),
    ensures
        location_wf(location_step(s, event)),
{
    lemma_next_user(s.users, 0);
    match s.stage {
        LocationStage::AnalyzeUser { user } => lemma_next_user(s.users, user + 1),
        LocationStage::StoreLocation { user, .. } => lemma_next_user(s.users, user + 1),
        _ => {},
    }
}

/// The stage for the first user at or after `from` with an address, if any.
fn seek_user(users: &Vec<AnalyzedUser>, from: usize) -> (r: LocationStage<
    usize,
    ContributorAnalysis,
>)
    ensures
        stage_view(r) == next_user(crate::model::user_views(users@), from as int),
{
    let mut at: usize = from;
    while at < users.len()
        invariant
            next_user(crate::model::user_views(users@), from as int) == next_user(
                crate::model::user_views(users@),
                at as int,
            ),
        decreases users.len() - at,
    {
        if users[at].has_email() {
            return LocationStage::AnalyzeUser { user: at };
        }
        at += 1;
    }
    LocationStage::Completed
}

/// Starts the work on the repository `repo` of `owner`, whose contributors are
/// `users`; its clone lies below `base_dir`.
pub fn analyze_contributor_locations(
    base_dir: PathBuf,
    owner: String,
    repo: String,
    repository_id: Uuid,
    users: Vec<AnalyzedUser>,
) -> (r: LocationAnalysis)
    ensures
        location_wf(r@),
        r@ == location_start(
            base_dir,
            owner@,
            repo@,
            repository_id,
            crate::model::user_views(users@),
        ),
{
    LocationAnalysis {
        base_dir,
        owner,
        repo,
        repository_id,
        users,
        china_contributors: 0,
        non_china_contributors: 0,
        stage: LocationStage::CheckBaseDir,
    }
}

impl LocationAnalysis {
    /// What is to be done next, or how the work ended.
    pub fn stage(&self) -> (r: &LocationStage<usize, ContributorAnalysis>)
        ensures
            stage_view(*r) == self@.stage,
    {
        &self.stage
    }

    /// The repository in work.
    pub fn repository_id(&self) -> (r: Uuid)
        ensures
            r == self@.repository_id,
    {
        self.repository_id
    }

    /// The contributors of the repository.
    pub fn users(&self) -> (r: &Vec<AnalyzedUser>)
        ensures
            crate::model::user_views(r@) == self@.users,
    {
        &self.users
    }

    /// How many contributors were found to work in China.
    pub fn china_contributors(&self) -> (r: usize)
        ensures
            r as nat == self@.china_contributors,
    {
        self.china_contributors
    }

    /// How many contributors were found to work elsewhere.
    pub fn non_china_contributors(&self) -> (r: usize)
        ensures
            r as nat == self@.non_china_contributors,
    {
        self.non_china_contributors
    }

    /// How many contributors were counted.
    pub fn total_contributors(&self) -> (r: usize)
        requires
            location_wf(self@),
        ensures
            r as nat == self@.china_contributors + self@.non_china_contributors,
    {
        assert(self.users.len() == self@.users.len());
        self.china_contributors + self.non_china_contributors
    }

    /// The directory below which all clones lie.
    pub fn base_dir(&self) -> (r: &PathBuf)
        ensures
            *r == self@.base_dir,
    {
        &self.base_dir
    }

    /// The owner of the repository.
    pub fn owner(&self) -> (r: &String)
        ensures
            r@ == self@.owner,
    {
        &self.owner
    }

    /// The name of the repository.
    pub fn repo(&self) -> (r: &String)
        ensures
            r@ == self@.repo,
    {
        &self.repo
    }

    /// The directory of the clone, in the stages that work on it: the base
    /// directory, and the path below it.
    pub fn target(&self) -> (r: Option<(&PathBuf, String)>)
        requires
            crate::repository::owner_splits(self@.owner),
        ensures
            match target_of(self@) {
                Some((base_dir, subdir)) => {
                    &&& r matches Some((base, below))
                    &&& *base == base_dir
                    &&& below@ == subdir
                },
                None => r is None,
            },
    {
        match self.stage {
            LocationStage::CheckTargetDir
            | LocationStage::CheckParentDir
            | LocationStage::CreateParentDir
            | LocationStage::CloneRepository
            | LocationStage::CheckShallow
            | LocationStage::FetchHistory
            | LocationStage::AnalyzeUser { .. } => Some(
                (&self.base_dir, repository_subdir(&self.owner, &self.repo)),
            ),
            _ => None,
        }
    }

    /// The arguments with which git clones this repository into `target`, in the
    /// stage that calls for it.
    pub fn clone_command(&self, target: &str) -> (r: Option<Vec<String>>)
        ensures
            r is Some <==> self@.stage is CloneRepository,
            r is Some ==> crate::text::strings(r->0@) == crate::git::clone_list(
                self@.owner,
                self@.repo,
                target@,
            ),
    {
        match self.stage {
            LocationStage::CloneRepository => Some(clone_args(&self.owner, &self.repo, target)),
            _ => None,
        }
    }

    /// The arguments with which git tells whether the clone is shallow, in the stage
    /// that calls for it.
    pub fn shallow_command(&self) -> (r: Option<Vec<String>>)
        ensures
            r is Some <==> self@.stage is CheckShallow,
            r is Some ==> crate::text::strings(r->0@) == crate::git::shallow_list(),
    {
        match self.stage {
            LocationStage::CheckShallow => Some(shallow_args()),
            _ => None,
        }
    }

    /// The arguments with which git completes the clone, in the stage that calls for
    /// it.
    pub fn fetch_command(&self) -> (r: Option<Vec<String>>)
        ensures
            r is Some <==> self@.stage is FetchHistory,
            r is Some ==> crate::text::strings(r->0@) == crate::git::fetch_list(),
    {
        match self.stage {
            LocationStage::FetchHistory => Some(fetch_args()),
            _ => None,
        }
    }

    /// What is to be stored: the repository, the user and their analysis.
    pub fn location(&self) -> (r: Option<(Uuid, Uuid, &ContributorAnalysis)>)
        requires
            location_wf(self@),
        ensures
            match location_of(self@) {
                Some((repository, user, analysis)) => {
                    &&& r matches Some((repository_id, user_id, found))
                    &&& repository_id == repository
                    &&& user_id == user
                    &&& found@ == analysis
                },
                None => r is None,
            },
    {
        match &self.stage {
            LocationStage::StoreLocation { user, analysis } => {
                assert(crate::model::user_views(self.users@)[*user as int]
                    == self.users@[*user as int]@);
                Some((self.repository_id, self.users[*user].user_id, analysis))
            },
            _ => None,
        }
    }

    /// The user whose time zone is to be analysed.
    pub fn pending_user(&self) -> (r: Option<&AnalyzedUser>)
        requires
            location_wf(self@),
        ensures
            match self@.stage {
                LocationStage::AnalyzeUser { user } => r is Some && r->0@ == self@.users[user],
                _ => r is None,
            },
    {
        match &self.stage {
            LocationStage::AnalyzeUser { user } => {
                assert(crate::model::user_views(self.users@)[*user as int]
                    == self.users@[*user as int]@);
                Some(&self.users[*user])
            },
            _ => None,
        }
    }

    /// Goes on with what came of the last stage.
    pub fn step(self, event: LocationEvent<ContributorAnalysis>) -> (r: LocationAnalysis)
        requires
            location_wf(self@),
        ensures
            location_wf(r@),
            r@ == location_step(self@, event_view(event)),
    {
        proof {
            law_location_wf(self@, event_view(event));
            assert(self.users.len() == self@.users.len());
        }
        let LocationAnalysis {
            base_dir,
            owner,
            repo,
            repository_id,
            users,
            china_contributors,
            non_china_contributors,
            stage,
        } = self;
        let mut china: usize = china_contributors;
        let mut non_china: usize = non_china_contributors;
        let stage = match (stage, event) {
            (LocationStage::CheckBaseDir, LocationEvent::Exists(exists)) => if exists {
                LocationStage::CheckTargetDir
            } else {
                LocationStage::CreateBaseDir
            },
            (LocationStage::CreateBaseDir, LocationEvent::Created(created)) => if created {
                LocationStage::CheckTargetDir
            } else {
                LocationStage::Failed
            },
            (LocationStage::CheckTargetDir, LocationEvent::Exists(exists)) => if exists {
                LocationStage::CheckShallow
            } else {
                LocationStage::CheckParentDir
            },
            (LocationStage::CheckParentDir, LocationEvent::Exists(exists)) => if exists {
                LocationStage::CloneRepository
            } else {
                LocationStage::CreateParentDir
            },
            (LocationStage::CreateParentDir, LocationEvent::Created(created)) => if created {
                LocationStage::CloneRepository
            } else {
                LocationStage::Failed
            },
            (LocationStage::CloneRepository, LocationEvent::Cloned(cloned)) => if cloned {
                seek_user(&users, 0)
            } else {
                LocationStage::Skipped
            },
            (LocationStage::CheckShallow, LocationEvent::Shallow(shallow)) => if shallow {
                LocationStage::FetchHistory
            } else {
                seek_user(&users, 0)
            },
            (LocationStage::FetchHistory, LocationEvent::Fetched) => seek_user(&users, 0),
            (LocationStage::AnalyzeUser { user }, LocationEvent::Analyzed(found)) => match found {
                Some(analysis) => LocationStage::StoreLocation { user, analysis },
                None => seek_user(&users, user + 1),
            },
            (LocationStage::StoreLocation { user, analysis }, LocationEvent::Stored) => {
                if same_text(&analysis.common_timezone, "+08:00") {
                    china = china + 1;
                } else {
                    non_china = non_china + 1;
                }
                seek_user(&users, user + 1)
            },
            (stage, _) => stage,
        };
        LocationAnalysis {
            base_dir,
            owner,
            repo,
            repository_id,
            users,
            china_contributors: china,
            non_china_contributors: non_china,
            stage,
        }
    }
}

/// The work on a repository after several events.
pub open spec fn location_run(
    s: LocationView,
    events: Seq<LocationEvent<crate::timezone::AnalysisView>>,
) -> LocationView
    decreases events.len(),
{
    if events.len() == 0 {
        s
    } else {
        location_step(location_run(s, events.drop_last()), events.last())
    }
}

/// How things stand with the directories and the clone of a repository.
pub struct Preparation {
    pub base_exists: bool,
    pub base_created: bool,
    pub target_exists: bool,
    pub parent_exists: bool,
    pub parent_created: bool,
    pub cloned: bool,
    pub shallow: bool,
}

/// The events that answer the stages before the first user.
pub open spec fn preparation_events(p: Preparation) -> Seq<
    LocationEvent<crate::timezone::AnalysisView>,
> {
    let base = if p.base_exists {
        seq![LocationEvent::Exists(true)]
    } else {
        seq![LocationEvent::Exists(false), LocationEvent::Created(p.base_created)]
    };
    if !p.base_exists && !p.base_created {
        base
    } else if p.target_exists && p.shallow {
        base.push(LocationEvent::Exists(true)).push(LocationEvent::Shallow(true)).push(
            LocationEvent::Fetched,
        )
    } else if p.target_exists {
        base.push(LocationEvent::Exists(true)).push(LocationEvent::Shallow(false))
    } else if p.parent_exists {
        base.push(LocationEvent::Exists(false)).push(LocationEvent::Exists(true)).push(
            LocationEvent::Cloned(p.cloned),
        )
    } else if p.parent_created {
        base.push(LocationEvent::Exists(false)).push(LocationEvent::Exists(false)).push(
            LocationEvent::Created(true),
        ).push(LocationEvent::Cloned(p.cloned))
    } else {
        base.push(LocationEvent::Exists(false)).push(LocationEvent::Exists(false)).push(
            LocationEvent::Created(false),
        )
    }
}

/// The events that answer the stages of the first `n` users, given the outcome of
/// each analysis. Users without an address are not asked about.
pub open spec fn user_events(
    users: Seq<crate::model::UserView>,
    outcomes: Seq<Option<crate::timezone::AnalysisView>>,
    n: int,
) -> Seq<LocationEvent<crate::timezone::AnalysisView>>
    decreases n,
{
    if n <= 0 {
        Seq::empty()
    } else {
        let earlier = user_events(users, outcomes, n - 1);
        if !crate::model::has_email(users[n - 1]) {
            earlier
        } else {
            match outcomes[n - 1] {
                None => earlier.push(LocationEvent::Analyzed(None)),
                Some(analysis) => earlier.push(LocationEvent::Analyzed(Some(analysis))).push(
                    LocationEvent::Stored,
                ),
            }
        }
    }
}

/// How many of the first `n` users have an address and an analysis that puts them
/// in China (`china`), or elsewhere (`!china`).
pub open spec fn counted(
    users: Seq<crate::model::UserView>,
    outcomes: Seq<Option<crate::timezone::AnalysisView>>,
    n: int,
    china: bool,
) -> nat
    decreases n,
{
    if n <= 0 {
        0
    } else {
        let earlier = counted(users, outcomes, n - 1, china);
        if crate::model::has_email(users[n - 1]) && outcomes[n - 1] is Some && in_china(
            outcomes[n - 1]->0,
        ) == china {
            earlier + 1
        } else {
            earlier
        }
    }
}

/// One more event is one more step.
proof fn lemma_run_push(
    s: LocationView,
    events: Seq<LocationEvent<crate::timezone::AnalysisView>>,
    event: LocationEvent<crate::timezone::AnalysisView>,
)
    ensures
        location_run(s, events.push(event)) == location_step(location_run(s, events), event),
{
    assert(events.push(event).drop_last() =~= events);
}

/// Events in a row may be taken in two parts.
proof fn lemma_run_concat(
    s: LocationView,
    a: Seq<LocationEvent<crate::timezone::AnalysisView>>,
    b: Seq<LocationEvent<crate::timezone::AnalysisView>>,
)
    ensures
        location_run(s, a + b) == location_run(location_run(s, a), b),
    decreases b.len(),
{
    if b.len() == 0 {
        assert(a + b =~= a);
    } else {
        assert((a + b).drop_last() =~= a + b.drop_last());
        lemma_run_concat(s, a, b.drop_last());
    }
}

/// Work that has ended stays as it is.
pub proof fn law_location_ended(
    s: LocationView,
    event: LocationEvent<crate::timezone::AnalysisView>,
)
    requires
        s.stage is Completed || s.stage is Skipped || s.stage is Failed,
    ensures
        location_step(s, event) == s,
{
}

/// Before the first user: a directory that cannot be created fails the work, a
/// repository that is not there yet and cannot be cloned is skipped, and otherwise
/// the users follow, whether or not a fetch was needed or succeeded.
pub proof fn law_preparation(s: LocationView, p: Preparation)
    requires
        s.stage is CheckBaseDir,
    ensures
        location_run(s, preparation_events(p)) == (LocationView {
            stage: if !p.base_exists && !p.base_created {
                LocationStage::Failed
            } else if p.target_exists {
                next_user(s.users, 0)
            } else if !p.parent_exists && !p.parent_created {
                LocationStage::Failed
            } else if p.cloned {
                next_user(s.users, 0)
            } else {
                LocationStage::Skipped
            },
            ..s
        }),
{
    let none: Seq<LocationEvent<crate::timezone::AnalysisView>> = Seq::empty();
    let first = none.push(LocationEvent::Exists(p.base_exists));
    lemma_run_push(s, none, LocationEvent::Exists(p.base_exists));
    let base = if p.base_exists {
        first
    } else {
        lemma_run_push(s, first, LocationEvent::Created(p.base_created));
        first.push(LocationEvent::Created(p.base_created))
    };
    if p.base_exists {
        assert(seq![LocationEvent::Exists(true)] =~= base);
    } else {
        assert(seq![LocationEvent::Exists(false), LocationEvent::Created(p.base_created)] =~= base);
    }
    let target = base.push(LocationEvent::Exists(p.target_exists));
    lemma_run_push(s, base, LocationEvent::Exists(p.target_exists));
    lemma_run_push(s, target, LocationEvent::Shallow(p.shallow));
    lemma_run_push(s, target.push(LocationEvent::Shallow(p.shallow)), LocationEvent::Fetched);
    let parent = target.push(LocationEvent::Exists(p.parent_exists));
    lemma_run_push(s, target, LocationEvent::Exists(p.parent_exists));
    lemma_run_push(s, parent, LocationEvent::Cloned(p.cloned));
    let created = parent.push(LocationEvent::Created(p.parent_created));
    lemma_run_push(s, parent, LocationEvent::Created(p.parent_created));
    lemma_run_push(s, created, LocationEvent::Cloned(p.cloned));
}

/// The first `n` users leave the work at the next one, with those counted whose
/// analysis had an outcome.
proof fn lemma_users(
    s: LocationView,
    outcomes: Seq<Option<crate::timezone::AnalysisView>>,
    n: int,
)
    requires
        s.stage == next_user(s.users, 0),
        outcomes.len() == s.users.len(),
        0 <= n <= s.users.len(),
    ensures
        location_run(s, user_events(s.users, outcomes, n)) == (LocationView {
            stage: next_user(s.users, n),
            china_contributors: s.china_contributors + counted(s.users, outcomes, n, true),
            non_china_contributors: s.non_china_contributors + counted(s.users, outcomes, n, false),
            ..s
        }),
    decreases n,
{
    if n > 0 {
        lemma_users(s, outcomes, n - 1);
        let earlier = user_events(s.users, outcomes, n - 1);
        if crate::model::has_email(s.users[n - 1]) {
            let answer = LocationEvent::Analyzed(outcomes[n - 1]);
            lemma_run_push(s, earlier, answer);
            lemma_run_push(s, earlier.push(answer), LocationEvent::Stored);
        }
    }
}

/// Once the clone is ready, the users with an address are analysed in order, each
/// once; at the end every one whose analysis had an outcome is counted once, by
/// whether their common time zone is `+08:00`.
pub proof fn law_location_users(
    s: LocationView,
    outcomes: Seq<Option<crate::timezone::AnalysisView>>,
)
    requires
        s.stage == next_user(s.users, 0),
        outcomes.len() == s.users.len(),
    ensures
        location_run(s, user_events(s.users, outcomes, s.users.len() as int)) == (LocationView {
            stage: LocationStage::Completed,
            china_contributors: s.china_contributors + counted(
                s.users,
                outcomes,
                s.users.len() as int,
                true,
            ),
            non_china_contributors: s.non_china_contributors + counted(
                s.users,
                outcomes,
                s.users.len() as int,
                false,
            ),
            ..s
        }),
{
    lemma_users(s, outcomes, s.users.len() as int);
}

/// A whole run over a repository whose clone can be had: it completes, and the
/// counts are those of the users' outcomes.
pub proof fn law_location_run(
    s: LocationView,
    p: Preparation,
    outcomes: Seq<Option<crate::timezone::AnalysisView>>,
)
    requires
        s == location_start(s.base_dir, s.owner, s.repo, s.repository_id, s.users),
        p.base_exists || p.base_created,
        p.target_exists || ((p.parent_exists || p.parent_created) && p.cloned),
        outcomes.len() == s.users.len(),
    ensures
        location_run(
            s,
            preparation_events(p) + user_events(s.users, outcomes, s.users.len() as int),
        ) == (LocationView {
            china_contributors: counted(s.users, outcomes, s.users.len() as int, true),
            non_china_contributors: counted(s.users, outcomes, s.users.len() as int, false),
            stage: LocationStage::Completed,
            ..s
        }),
{
    lemma_run_concat(
        s,
        preparation_events(p),
        user_events(s.users, outcomes, s.users.len() as int),
    );
    law_preparation(s, p);
    law_location_users(location_run(s, preparation_events(p)), outcomes);
}

/// What `location` hands out to be stored over a run, in order.
pub open spec fn stored_locations(
    s: LocationView,
    events: Seq<LocationEvent<crate::timezone::AnalysisView>>,
) -> Seq<(Uuid, Uuid, crate::timezone::AnalysisView)>
    decreases events.len(),
{
    if events.len() == 0 {
        Seq::empty()
    } else {
        let earlier = stored_locations(s, events.drop_last());
        match (location_of(location_run(s, events.drop_last())), events.last()) {
            (Some(location), LocationEvent::Stored) => earlier.push(location),
            _ => earlier,
        }
    }
}

/// For each of the first `n` users with an address and an outcome: the repository,
/// the user and the outcome, in the order of the users.
pub open spec fn locations_in(
    repository_id: Uuid,
    users: Seq<crate::model::UserView>,
    outcomes: Seq<Option<crate::timezone::AnalysisView>>,
    n: int,
) -> Seq<(Uuid, Uuid, crate::timezone::AnalysisView)>
    decreases n,
{
    if n <= 0 {
        Seq::empty()
    } else {
        let earlier = locations_in(repository_id, users, outcomes, n - 1);
        if crate::model::has_email(users[n - 1]) && outcomes[n - 1] is Some {
            earlier.push((repository_id, users[n - 1].user_id, outcomes[n - 1]->0))
        } else {
            earlier
        }
    }
}

/// One more event may store one more location.
proof fn lemma_stored_push(
    s: LocationView,
    events: Seq<LocationEvent<crate::timezone::AnalysisView>>,
    event: LocationEvent<crate::timezone::AnalysisView>,
)
    ensures
        stored_locations(s, events.push(event)) == match (
            location_of(location_run(s, events)),
            event,
        ) {
            (Some(location), LocationEvent::Stored) => stored_locations(s, events).push(location),
            _ => stored_locations(s, events),
        },
{
    assert(events.push(event).drop_last() =~= events);
}

/// What is stored over events in two parts is what is stored over each.
proof fn lemma_stored_concat(
    s: LocationView,
    a: Seq<LocationEvent<crate::timezone::AnalysisView>>,
    b: Seq<LocationEvent<crate::timezone::AnalysisView>>,
)
    ensures
        stored_locations(s, a + b) == stored_locations(s, a) + stored_locations(
            location_run(s, a),
            b,
        ),
    decreases b.len(),
{
    if b.len() == 0 {
        assert(a + b =~= a);
        assert(stored_locations(s, a) + stored_locations(location_run(s, a), b)
            =~= stored_locations(s, a));
    } else {
        assert((a + b).drop_last() =~= a + b.drop_last());
        lemma_stored_concat(s, a, b.drop_last());
        lemma_run_concat(s, a, b.drop_last());
        assert(stored_locations(s, a + b) =~= stored_locations(s, a) + stored_locations(
            location_run(s, a),
            b,
        ));
    }
}

/// Nothing is stored without an event that answers it.
proof fn lemma_nothing_stored(
    s: LocationView,
    events: Seq<LocationEvent<crate::timezone::AnalysisView>>,
)
    requires
        forall|i: int| 0 <= i < events.len() ==> !(#[trigger] events[i] is Stored),
    ensures
        stored_locations(s, events) == Seq::<
            (Uuid, Uuid, crate::timezone::AnalysisView),
        >::empty(),
    decreases events.len(),
{
    if events.len() > 0 {
        assert forall|i: int| 0 <= i < events.drop_last().len() implies !(
        #[trigger] events.drop_last()[i] is Stored) by {
            assert(!(events[i] is Stored));
        }
        lemma_nothing_stored(s, events.drop_last());
        assert(!(events[events.len() - 1] is Stored));
    }
}

/// Before the first user, nothing is stored, however the preparation ends.
pub proof fn law_preparation_stores_nothing(s: LocationView, p: Preparation)
    ensures
        stored_locations(s, preparation_events(p)) == Seq::<
            (Uuid, Uuid, crate::timezone::AnalysisView),
        >::empty(),
{
    lemma_nothing_stored(s, preparation_events(p));
}

/// The locations stored for the first `n` users.
proof fn lemma_stored_users(
    s: LocationView,
    outcomes: Seq<Option<crate::timezone::AnalysisView>>,
    n: int,
)
    requires
        s.stage == next_user(s.users, 0),
        outcomes.len() == s.users.len(),
        0 <= n <= s.users.len(),
    ensures
        stored_locations(s, user_events(s.users, outcomes, n)) == locations_in(
            s.repository_id,
            s.users,
            outcomes,
            n,
        ),
    decreases n,
{
    if n > 0 {
        lemma_stored_users(s, outcomes, n - 1);
        lemma_users(s, outcomes, n - 1);
        let earlier = user_events(s.users, outcomes, n - 1);
        if crate::model::has_email(s.users[n - 1]) {
            let answer = LocationEvent::Analyzed(outcomes[n - 1]);
            lemma_run_push(s, earlier, answer);
            lemma_stored_push(s, earlier, answer);
            lemma_stored_push(s, earlier.push(answer), LocationEvent::Stored);
        }
    }
}

/// What is handed out to be stored over a whole run is exactly the repository, the
/// user and the analysis of each user with an address and an outcome, in the order
/// of the users.
pub proof fn law_stored_locations(
    s: LocationView,
    p: Preparation,
    outcomes: Seq<Option<crate::timezone::AnalysisView>>,
)
    requires
        s == location_start(s.base_dir, s.owner, s.repo, s.repository_id, s.users),
        p.base_exists || p.base_created,
        p.target_exists || ((p.parent_exists || p.parent_created) && p.cloned),
        outcomes.len() == s.users.len(),
    ensures
        stored_locations(
            s,
            preparation_events(p) + user_events(s.users, outcomes, s.users.len() as int),
        ) == locations_in(s.repository_id, s.users, outcomes, s.users.len() as int),
{
    let users = user_events(s.users, outcomes, s.users.len() as int);
    let ready = location_run(s, preparation_events(p));
    lemma_stored_concat(s, preparation_events(p), users);
    law_preparation_stores_nothing(s, p);
    law_preparation(s, p);
    lemma_stored_users(ready, outcomes, s.users.len() as int);
    assert(stored_locations(s, preparation_events(p) + users) =~= stored_locations(ready, users));
}

/// One directory serves a whole run: whatever happens, every stage that works on
/// the clone (the test whether it exists, the clone, the fetch and each analysis)
/// works on the same path below the same base directory.
pub proof fn law_one_directory(
    s: LocationView,
    events: Seq<LocationEvent<crate::timezone::AnalysisView>>,
)
    ensures
        location_run(s, events).base_dir == s.base_dir,
        location_run(s, events).owner == s.owner,
        location_run(s, events).repo == s.repo,
        target_of(location_run(s, events)) is Some ==> target_of(location_run(s, events)) == Some(
            (s.base_dir, crate::repository::subdir(s.owner, s.repo)),
        ),
    decreases events.len(),
{
    if events.len() > 0 {
        law_one_directory(s, events.drop_last());
    }
}

/// Who is counted among those in China has a time zone of China.
pub proof fn law_counted_has_china_timezone(
    list: Seq<Seq<char>>,
    analysis: crate::timezone::AnalysisView,
)
    requires
        crate::timezone::summarizes(list, analysis),
        in_china(analysis),
    ensures
        analysis.has_china_timezone,
{
    crate::timezone::lemma_plus_eight();
    crate::timezone::law_common_china_timezone(list, analysis);
}

/// Work starts with the base directory and with nobody counted.
pub proof fn law_location_start(
    base_dir: PathBuf,
    owner: Seq<char>,
    repo: Seq<char>,
    repository_id: Uuid,
    users: Seq<crate::model::UserView>,
)
    ensures
        ({
            let s = location_start(base_dir, owner, repo, repository_id, users);
            &&& s.base_dir == base_dir
            &&& s.owner == owner
            &&& s.repo == repo
            &&& s.repository_id == repository_id
            &&& s.users == users
            &&& s.china_contributors == 0
            &&& s.non_china_contributors == 0
            &&& s.stage is CheckBaseDir
        }),
{
}

/// The next user is the first one from `from` on with an address of either kind; the
/// work is complete exactly where there is none.
pub proof fn law_next_user(users: Seq<crate::model::UserView>, from: int)
    requires
        0 <= from <= users.len(),
    ensures
        next_user(users, from) is Completed || next_user(users, from) is AnalyzeUser,
        next_user(users, from) is Completed <==> forall|i: int|
            from <= i < users.len() ==> (#[trigger] users[i]).profile_email is None
                && users[i].commit_email is None,
        next_user(users, from) matches LocationStage::AnalyzeUser { user } ==> {
            &&& from <= user < users.len()
            &&& users[user].profile_email is Some || users[user].commit_email is Some
            &&& forall|i: int|
                from <= i < user ==> (#[trigger] users[i]).profile_email is None
                    && users[i].commit_email is None
        },
    decreases users.len() - from,
{
    if from < users.len() && users[from].profile_email is None && users[from].commit_email is None {
        law_next_user(users, from + 1);
    }
}

/// The base directory: where it exists, or can be created, the clone's directory is
/// next; where it cannot, the work fails.
pub proof fn law_base_directory(s: LocationView)
    ensures
        s.stage is CheckBaseDir ==> location_step(s, LocationEvent::Exists(true)).stage
            is CheckTargetDir,
        s.stage is CheckBaseDir ==> location_step(s, LocationEvent::Exists(false)).stage
            is CreateBaseDir,
        s.stage is CreateBaseDir ==> location_step(s, LocationEvent::Created(true)).stage
            is CheckTargetDir,
        s.stage is CreateBaseDir ==> location_step(s, LocationEvent::Created(false)).stage
            is Failed,
{
}

/// The clone's directory: where it is missing it is cloned, its parent being created
/// first where that is missing too; where it exists it is checked for being shallow.
pub proof fn law_clone_directory(s: LocationView)
    ensures
        s.stage is CheckTargetDir ==> location_step(s, LocationEvent::Exists(true)).stage
            is CheckShallow,
        s.stage is CheckTargetDir ==> location_step(s, LocationEvent::Exists(false)).stage
            is CheckParentDir,
        s.stage is CheckParentDir ==> location_step(s, LocationEvent::Exists(true)).stage
            is CloneRepository,
        s.stage is CheckParentDir ==> location_step(s, LocationEvent::Exists(false)).stage
            is CreateParentDir,
        s.stage is CreateParentDir ==> location_step(s, LocationEvent::Created(true)).stage
            is CloneRepository,
        s.stage is CreateParentDir ==> location_step(s, LocationEvent::Created(false)).stage
            is Failed,
        s.stage is CheckShallow ==> location_step(s, LocationEvent::Shallow(true)).stage
            is FetchHistory,
{
}

/// The first user with an address is next once the repository is cloned, or its clone
/// is found complete, or a fetch has ended; a clone that failed skips the repository.
pub proof fn law_clone_ready(s: LocationView)
    ensures
        s.stage is CloneRepository ==> location_step(s, LocationEvent::Cloned(true)).stage
            == next_user(s.users, 0),
        s.stage is CloneRepository ==> location_step(s, LocationEvent::Cloned(false)).stage
            is Skipped,
        s.stage is CheckShallow ==> location_step(s, LocationEvent::Shallow(false)).stage
            == next_user(s.users, 0),
        s.stage is FetchHistory ==> location_step(s, LocationEvent::Fetched).stage == next_user(
            s.users,
            0,
        ),
{
}

/// What was found out about a user is stored as it is, for that very user; a user of
/// whom nothing was found out is passed over, and so is one whose analysis was stored.
pub proof fn law_user_analyzed(
    s: LocationView,
    user: int,
    analysis: crate::timezone::AnalysisView,
)
    ensures
        s.stage == (LocationStage::<int, crate::timezone::AnalysisView>::AnalyzeUser {
            user,
        }) ==> location_step(
            s,
            LocationEvent::Analyzed(Some(analysis)),
        ).stage == (LocationStage::StoreLocation { user, analysis }),
        s.stage == (LocationStage::<int, crate::timezone::AnalysisView>::AnalyzeUser {
            user,
        }) ==> location_step(
            s,
            LocationEvent::Analyzed(None),
        ).stage == next_user(s.users, user + 1),
        s.stage == (LocationStage::StoreLocation { user, analysis }) ==> location_step(
            s,
            LocationEvent::Stored,
        ).stage == next_user(s.users, user + 1),
{
}

/// A contributor whose analysis is stored is counted in China exactly where the common
/// time zone is the text `+08:00`, and elsewhere in every other case, whatever other
/// time zones they commit in.
pub proof fn law_counted_by_common_timezone(
    s: LocationView,
    user: int,
    analysis: crate::timezone::AnalysisView,
)
    requires
        s.stage == (LocationStage::StoreLocation { user, analysis }),
    ensures
        analysis.common_timezone == "+08:00"@ ==> location_step(
            s,
            LocationEvent::Stored,
        ).china_contributors == s.china_contributors + 1 && location_step(
            s,
            LocationEvent::Stored,
        ).non_china_contributors == s.non_china_contributors,
        analysis.common_timezone != "+08:00"@ ==> location_step(
            s,
            LocationEvent::Stored,
        ).china_contributors == s.china_contributors && location_step(
            s,
            LocationEvent::Stored,
        ).non_china_contributors == s.non_china_contributors + 1,
{
}

/// Nobody is counted but when their analysis is stored.
pub proof fn law_counted_when_stored(
    s: LocationView,
    event: LocationEvent<crate::timezone::AnalysisView>,
)
    requires
        !(s.stage is StoreLocation && event is Stored),
    ensures
        location_step(s, event).china_contributors == s.china_contributors,
        location_step(s, event).non_china_contributors == s.non_china_contributors,
{
}

/// Whatever happens, the repository, its directory and its contributors stay.
pub proof fn law_step_keeps_the_work(
    s: LocationView,
    event: LocationEvent<crate::timezone::AnalysisView>,
)
    ensures
        location_step(s, event).base_dir == s.base_dir,
        location_step(s, event).owner == s.owner,
        location_step(s, event).repo == s.repo,
        location_step(s, event).repository_id == s.repository_id,
        location_step(s, event).users == s.users,
{
}

/// An event that does not answer the stage changes nothing.
pub proof fn law_unasked_event(
    s: LocationView,
    event: LocationEvent<crate::timezone::AnalysisView>,
)
    requires
        event is Exists ==> !(s.stage is CheckBaseDir) && !(s.stage is CheckTargetDir) && !(
        s.stage is CheckParentDir),
        event is Created ==> !(s.stage is CreateBaseDir) && !(s.stage is CreateParentDir),
        event is Cloned ==> !(s.stage is CloneRepository),
        event is Shallow ==> !(s.stage is CheckShallow),
        event is Fetched ==> !(s.stage is FetchHistory),
        event is Analyzed ==> !(s.stage is AnalyzeUser),
        event is Stored ==> !(s.stage is StoreLocation),
    ensures
        location_step(s, event) == s,
{
}

/// The directory of the clone is asked for in the stages that work on it and in no
/// other; it is the path of owner and repository below the base directory.
pub proof fn law_target_of(s: LocationView)
    ensures
        target_of(s) is Some <==> {
            ||| s.stage is CheckTargetDir
            ||| s.stage is CheckParentDir
            ||| s.stage is CreateParentDir
            ||| s.stage is CloneRepository
            ||| s.stage is CheckShallow
            ||| s.stage is FetchHistory
            ||| s.stage is AnalyzeUser
        },
        target_of(s) is Some ==> (target_of(s)->0).0 == s.base_dir && (target_of(s)->0).1
            == crate::repository::subdir(s.owner, s.repo),
{
}

/// What is to be stored is the analysis at hand, for the user at hand and the
/// repository in work.
pub proof fn law_location_of(s: LocationView)
    ensures
        location_of(s) is Some <==> s.stage is StoreLocation,
        s.stage matches LocationStage::StoreLocation { user, analysis } ==> location_of(s) == Some(
            (s.repository_id, s.users[user].user_id, analysis),
        ),
{
}

/// Who is counted: as many as there are users with an address of either kind and an
/// analysis whose common time zone is `+08:00`, or another text.
pub proof fn law_counted(
    users: Seq<crate::model::UserView>,
    outcomes: Seq<Option<crate::timezone::AnalysisView>>,
    n: int,
    china: bool,
)
    requires
        0 <= n <= users.len(),
        users.len() == outcomes.len(),
    ensures
        Set::new(
            |i: int|
                0 <= i < n && (users[i].profile_email is Some || users[i].commit_email is Some)
                    && outcomes[i] is Some && (outcomes[i]->0.common_timezone == "+08:00"@)
                    == china,
        ).finite(),
        counted(users, outcomes, n, china) == Set::new(
            |i: int|
                0 <= i < n && (users[i].profile_email is Some || users[i].commit_email is Some)
                    && outcomes[i] is Some && (outcomes[i]->0.common_timezone == "+08:00"@)
                    == china,
        ).len(),
    decreases n,
{
    let here = Set::new(
        |i: int|
            0 <= i < n && (users[i].profile_email is Some || users[i].commit_email is Some)
                && outcomes[i] is Some && (outcomes[i]->0.common_timezone == "+08:00"@) == china,
    );
    if n == 0 {
        assert(here =~= Set::empty());
    } else {
        let m = n - 1;
        let before = Set::new(
            |i: int|
                0 <= i < m && (users[i].profile_email is Some || users[i].commit_email is Some)
                    && outcomes[i] is Some && (outcomes[i]->0.common_timezone == "+08:00"@)
                    == china,
        );
        law_counted(users, outcomes, m, china);
        if (users[m].profile_email is Some || users[m].commit_email is Some) && outcomes[m] is Some
            && (outcomes[m]->0.common_timezone == "+08:00"@) == china {
            assert(here =~= before.insert(m));
        } else {
            assert(here =~= before);
        }
    }
}

/// What a stage and an event are in specifications: the same, with what they hold.
pub proof fn law_location_views(user: usize, analysis: ContributorAnalysis, b: bool)
    ensures
        stage_view(LocationStage::AnalyzeUser { user }) == (LocationStage::<
            int,
            crate::timezone::AnalysisView,
        >::AnalyzeUser { user: user as int }),
        stage_view(LocationStage::StoreLocation { user, analysis })
            == (LocationStage::StoreLocation { user: user as int, analysis: analysis@ }),
        stage_view(LocationStage::CheckBaseDir) is CheckBaseDir,
        stage_view(LocationStage::CreateBaseDir) is CreateBaseDir,
        stage_view(LocationStage::CheckTargetDir) is CheckTargetDir,
        stage_view(LocationStage::CheckParentDir) is CheckParentDir,
        stage_view(LocationStage::CreateParentDir) is CreateParentDir,
        stage_view(LocationStage::CloneRepository) is CloneRepository,
        stage_view(LocationStage::CheckShallow) is CheckShallow,
        stage_view(LocationStage::FetchHistory) is FetchHistory,
        stage_view(LocationStage::Completed) is Completed,
        stage_view(LocationStage::Skipped) is Skipped,
        stage_view(LocationStage::Failed) is Failed,
        event_view(LocationEvent::Analyzed(Some(analysis))) == LocationEvent::Analyzed(
            Some(analysis@),
        ),
        event_view(LocationEvent::Analyzed(None)) == LocationEvent::<
            crate::timezone::AnalysisView,
        >::Analyzed(None),
        event_view(LocationEvent::Exists(b)) == LocationEvent::<
            crate::timezone::AnalysisView,
        >::Exists(b),
        event_view(LocationEvent::Created(b)) == LocationEvent::<
            crate::timezone::AnalysisView,
        >::Created(b),
        event_view(LocationEvent::Cloned(b)) == LocationEvent::<
            crate::timezone::AnalysisView,
        >::Cloned(b),
        event_view(LocationEvent::Shallow(b)) == LocationEvent::<
            crate::timezone::AnalysisView,
        >::Shallow(b),
        event_view(LocationEvent::Fetched) is Fetched,
        event_view(LocationEvent::Stored) is Stored,
{
}

/// How many of the first `n` users are stored: those with an address of either kind
/// and an outcome.
pub proof fn law_stored_count(
    repository_id: Uuid,
    users: Seq<crate::model::UserView>,
    outcomes: Seq<Option<crate::timezone::AnalysisView>>,
    n: int,
)
    requires
        0 <= n <= users.len(),
        users.len() == outcomes.len(),
    ensures
        Set::new(
            |i: int|
                0 <= i < n && (users[i].profile_email is Some || users[i].commit_email is Some)
                    && outcomes[i] is Some,
        ).finite(),
        locations_in(repository_id, users, outcomes, n).len() == Set::new(
            |i: int|
                0 <= i < n && (users[i].profile_email is Some || users[i].commit_email is Some)
                    && outcomes[i] is Some,
        ).len(),
    decreases n,
{
    let here = Set::new(
        |i: int|
            0 <= i < n && (users[i].profile_email is Some || users[i].commit_email is Some)
                && outcomes[i] is Some,
    );
    if n == 0 {
        assert(here =~= Set::empty());
    } else {
        let m = n - 1;
        let before = Set::new(
            |i: int|
                0 <= i < m && (users[i].profile_email is Some || users[i].commit_email is Some)
                    && outcomes[i] is Some,
        );
        law_stored_count(repository_id, users, outcomes, m);
        if (users[m].profile_email is Some || users[m].commit_email is Some)
            && outcomes[m] is Some {
            assert(here =~= before.insert(m));
        } else {
            assert(here =~= before);
        }
    }
}

/// What is stored for a user with an address of either kind and an outcome: the
/// repository, that user and that outcome, at the place given by the number of such
/// users before.
pub proof fn law_stored_location_of_user(
    repository_id: Uuid,
    users: Seq<crate::model::UserView>,
    outcomes: Seq<Option<crate::timezone::AnalysisView>>,
    n: int,
    user: int,
)
    requires
        0 <= user < n <= users.len(),
        users.len() == outcomes.len(),
        users[user].profile_email is Some || users[user].commit_email is Some,
        outcomes[user] is Some,
    ensures
        ({
            let place = Set::new(
                |i: int|
                    0 <= i < user && (users[i].profile_email is Some
                        || users[i].commit_email is Some) && outcomes[i] is Some,
            ).len() as int;
            &&& place < locations_in(repository_id, users, outcomes, n).len()
            &&& locations_in(repository_id, users, outcomes, n)[place] == (
                repository_id,
                users[user].user_id,
                outcomes[user]->0,
            )
        }),
    decreases n,
{
    let place = Set::new(
        |i: int|
            0 <= i < user && (users[i].profile_email is Some || users[i].commit_email is Some)
                && outcomes[i] is Some,
    ).len() as int;
    if user < n - 1 {
        law_stored_location_of_user(repository_id, users, outcomes, n - 1, user);
        assert(locations_in(repository_id, users, outcomes, n)[place] == locations_in(
            repository_id,
            users,
            outcomes,
            n - 1,
        )[place]);
    } else {
        law_stored_count(repository_id, users, outcomes, user);
    }
}

} // verus!
