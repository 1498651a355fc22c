//! The people who contribute to a repository.

use uuid::Uuid;
use vstd::prelude::*;

use crate::text::same_text;

verus! {

/// `uuid::Uuid`, carried through and never looked into.
#[verifier::external_type_specification]
#[verifier::external_body]
pub struct ExUuid(Uuid);

/// A contributor as GitHub lists them.
#[derive(Debug)]
pub struct Contributor {
    pub login: String,
    pub contributions: i32,
}

/// What a contributor is in specifications.
pub struct ContributorView {
    pub login: Seq<char>,
    pub contributions: i32,
}

impl View for Contributor {
    type V = ContributorView;

    open spec fn view(&self) -> ContributorView {
        ContributorView { login: self.login@, contributions: self.contributions }
    }
}

/// A contributor whose commits are to be analysed.
#[derive(Debug)]
pub struct AnalyzedUser {
    pub user_id: Uuid,
    pub login: String,
    pub profile_email: Option<String>,
    pub commit_email: Option<String>,
}

/// What a user is in specifications.
pub struct UserView {
    pub user_id: Uuid,
    pub login: Seq<char>,
    pub profile_email: Option<Seq<char>>,
    pub commit_email: Option<Seq<char>>,
}

impl View for AnalyzedUser {
    type V = UserView;

    open spec fn view(&self) -> UserView {
        UserView {
            user_id: self.user_id,
            login: self.login@,
            profile_email: crate::text::optional_text(self.profile_email),
            commit_email: crate::text::optional_text(self.commit_email),
        }
    }
}

/// The views of a list of users.
pub open spec fn user_views(users: Seq<AnalyzedUser>) -> Seq<UserView> {
    users.map_values(|u: AnalyzedUser| u@)
}

/// Whether any address of a user is known.
pub open spec fn has_email(user: UserView) -> bool {
    user.commit_email is Some || user.profile_email is Some
}

/// The addresses of a user: that of the profile, then that of the commits where
/// it is another one.
pub open spec fn emails_of(user: UserView) -> Seq<Seq<char>> {
    match (user.profile_email, user.commit_email) {
        (None, None) => Seq::empty(),
        (Some(p), None) => seq![p],
        (None, Some(c)) => seq![c],
        (Some(p), Some(c)) => if p == c {
            seq![p]
        } else {
            seq![p, c]
        },
    }
}

impl AnalyzedUser {
    /// Whether any address of the user is known.
    pub fn has_email(&self) -> (r: bool)
        ensures
            r == has_email(self@),
    {
        self.commit_email.is_some() || self.profile_email.is_some()
    }

    /// The addresses of the user, each once.
    pub fn emails(&self) -> (r: Vec<String>)
        ensures
            crate::text::strings(r@) == emails_of(self@),
    {
        let mut r: Vec<String> = Vec::new();
        if let Some(profile) = &self.profile_email {
            r.push(profile.clone());
        }
        if let Some(commit) = &self.commit_email {
            let repeated = match &self.profile_email {
                Some(profile) => same_text(profile, commit),
                None => false,
            };
            if !repeated {
                r.push(commit.clone());
            }
        }
        assert(crate::text::strings(r@) =~= emails_of(self@));
        r
    }
}

/// The addresses of a user are exactly the known ones, none of them twice; there
/// is one where any is known.
pub proof fn law_emails(user: UserView)
    ensures
        emails_of(user).no_duplicates(),
        forall|e: Seq<char>| #[trigger]
            emails_of(user).contains(e) <==> user.profile_email == Some(e) || user.commit_email
                == Some(e),
        emails_of(user).len() > 0 <==> has_email(user),
{
    let emails = emails_of(user);
    assert forall|e: Seq<char>| #[trigger] emails.contains(e) <==> user.profile_email == Some(e)
        || user.commit_email == Some(e) by {
        if user.profile_email == Some(e) {
            assert(emails[0] == e);
        } else if user.commit_email == Some(e) {
            assert(emails[emails.len() - 1] == e);
        }
    }
}

/// The profile's address comes first where it is known; a user without any address
/// has none, whatever else is known of them.
pub proof fn law_profile_email_first(user: UserView)
    ensures
        user.profile_email is Some ==> emails_of(user).len() > 0 && emails_of(user)[0]
            == user.profile_email->0,
        user.profile_email is None && user.commit_email is Some ==> emails_of(user) == seq![
            user.commit_email->0,
        ],
        user.profile_email is None && user.commit_email is None <==> !has_email(user),
        user.profile_email is None && user.commit_email is None ==> emails_of(user).len() == 0,
{
}

/// What a user and a contributor are in specifications: all that is known of them.
pub proof fn law_people_views(user: AnalyzedUser, contributor: Contributor)
    ensures
        user@.user_id == user.user_id,
        user@.login == user.login@,
        user.profile_email is Some ==> user@.profile_email == Some(user.profile_email->0@),
        user.profile_email is None ==> user@.profile_email is None,
        user.commit_email is Some ==> user@.commit_email == Some(user.commit_email->0@),
        user.commit_email is None ==> user@.commit_email is None,
        contributor@.login == contributor.login@,
        contributor@.contributions == contributor.contributions,
{
}

/// The views of a list of users are theirs, one for one.
pub proof fn law_user_views(users: Seq<AnalyzedUser>)
    ensures
        user_views(users).len() == users.len(),
        forall|i: int| 0 <= i < users.len() ==> #[trigger] user_views(users)[i] == users[i]@,
{
}

} // verus!
