//! The records the service works on, and their mathematical views.

use vstd::prelude::*;

verus! {

/// Electoral pool. A voter may only vote for a candidate of the same campus.
#[derive(Debug, Clone, Copy, PartialEq, Eq, Hash, Structural)]
pub enum Campus {
    MM,
    PD,
}

/// A voter as the backing store records it. `name` identifies the voter.
#[derive(Debug, PartialEq, Eq)]
pub struct Voter {
    pub token: String,
    pub name: String,
    pub class: String,
    pub campus: Campus,
}

/// What a `Voter` holds, as plain values.
pub struct VoterView {
    pub token: Seq<char>,
    pub name: Seq<char>,
    pub class: Seq<char>,
    pub campus: Campus,
}

impl View for Voter {
    type V = VoterView;

    open spec fn view(&self) -> VoterView {
        VoterView {
            token: self.token@,
            name: self.name@,
            class: self.class@,
            campus: self.campus,
        }
    }
}

impl Clone for Voter {
    fn clone(&self) -> (copy: Self)
        ensures
            copy == *self,
    {
        Voter {
            token: self.token.clone(),
            name: self.name.clone(),
            class: self.class.clone(),
            campus: self.campus,
        }
    }
}

/// A candidate. `name` is unique within its campus.
#[derive(Debug, PartialEq, Eq)]
pub struct Candidate {
    pub name: String,
    pub campus: Campus,
}

/// What a `Candidate` holds, as plain values.
pub struct CandidateView {
    pub name: Seq<char>,
    pub campus: Campus,
}

impl View for Candidate {
    type V = CandidateView;

    open spec fn view(&self) -> CandidateView {
        CandidateView { name: self.name@, campus: self.campus }
    }
}

impl Clone for Candidate {
    fn clone(&self) -> (copy: Self)
        ensures
            copy == *self,
    {
        Candidate { name: self.name.clone(), campus: self.campus }
    }
}

/// One cast vote.
#[derive(Debug, PartialEq, Eq)]
pub struct Vote {
    pub voter_name: String,
    pub candidate_name: String,
}

/// What a `Vote` holds, as plain values.
pub struct VoteView {
    pub voter_name: Seq<char>,
    pub candidate_name: Seq<char>,
}

impl View for Vote {
    type V = VoteView;

    open spec fn view(&self) -> VoteView {
        VoteView { voter_name: self.voter_name@, candidate_name: self.candidate_name@ }
    }
}

impl Clone for Vote {
    fn clone(&self) -> (copy: Self)
        ensures
            copy == *self,
    {
        Vote {
            voter_name: self.voter_name.clone(),
            candidate_name: self.candidate_name.clone(),
        }
    }
}

/// An administrator. `admin_session_token` is set by a login.
#[derive(Debug, PartialEq, Eq)]
pub struct Admin {
    pub admin_id: String,
    pub admin_password: String,
    pub admin_session_token: Option<String>,
}

/// What an `Admin` holds, as plain values.
pub struct AdminView {
    pub admin_id: Seq<char>,
    pub admin_password: Seq<char>,
    pub admin_session_token: Option<Seq<char>>,
}

impl View for Admin {
    type V = AdminView;

    open spec fn view(&self) -> AdminView {
        AdminView {
            admin_id: self.admin_id@,
            admin_password: self.admin_password@,
            admin_session_token: match self.admin_session_token {
                Some(token) => Some(token@),
                None => None,
            },
        }
    }
}

impl Clone for Admin {
    fn clone(&self) -> (copy: Self)
        ensures
            copy == *self,
    {
        Admin {
            admin_id: self.admin_id.clone(),
            admin_password: self.admin_password.clone(),
            admin_session_token: match &self.admin_session_token {
                Some(token) => Some(token.clone()),
                None => None,
            },
        }
    }
}

} // verus!
