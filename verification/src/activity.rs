//! Data model: sources, sessions and the entries of a session's
//! append-only activity log.
//!
//! Every field is a plain value, so contracts can speak about whole records
//! by structural equality.  `Clone` is implemented by hand with an exact
//! postcondition, because verified callers need to know that a clone equals
//! its original.

use vstd::prelude::*;

verus! {

/// A repository source offered by the remote service.
#[derive(Debug, PartialEq, Eq)]
pub struct Source {
    pub name: String,
    pub id: String,
}

/// The repository details of a source context.
#[derive(Debug, PartialEq, Eq)]
pub struct GithubRepoContext {
    pub starting_branch: String,
}

/// Where a session's code lives.
#[derive(Debug, PartialEq, Eq)]
pub struct SourceContext {
    pub source: String,
    pub github_repo_context: Option<GithubRepoContext>,
}

/// A session as reported by the remote service.  Identity is `id`; `state`
/// is whatever state string the service reported, or absent when unknown.
#[derive(Debug, PartialEq, Eq)]
pub struct Session {
    pub name: String,
    pub id: String,
    pub state: Option<String>,
    pub title: String,
    pub source_context: Option<SourceContext>,
}

/// Payload of an activity in which the agent sent a message.
#[derive(Debug, PartialEq, Eq)]
pub struct AgentMessaged {
    pub agent_message: String,
}

/// Payload of an activity in which the user sent a message.
#[derive(Debug, PartialEq, Eq)]
pub struct UserMessaged {
    pub user_message: String,
}

/// Marker payload: the agent generated a plan.
#[derive(Debug, PartialEq, Eq)]
pub struct PlanGenerated {}

/// Marker payload: a plan was approved.
#[derive(Debug, PartialEq, Eq)]
pub struct PlanApproved {}

/// Payload of a progress update.
#[derive(Debug, PartialEq, Eq)]
pub struct ProgressUpdated {
    pub title: Option<String>,
    pub description: Option<String>,
}

/// Marker payload: the session completed.
#[derive(Debug, PartialEq, Eq)]
pub struct SessionCompleted {}

/// Marker payload: the activity carries a set of artifacts.
#[derive(Debug, PartialEq, Eq)]
pub struct ArtifactsAdded {}

/// One entry of a session's activity log.  At most one of the payload
/// fields is set; it tags the entry's kind.  Entries are ordered by the
/// monotonic `create_time` string, ties broken by server arrival order.
#[derive(Debug, PartialEq, Eq)]
pub struct Activity {
    pub name: String,
    pub id: String,
    pub title: Option<String>,
    pub create_time: String,
    pub originator: String,
    pub agent_messaged: Option<AgentMessaged>,
    pub user_messaged: Option<UserMessaged>,
    pub plan_generated: Option<PlanGenerated>,
    pub plan_approved: Option<PlanApproved>,
    pub progress_updated: Option<ProgressUpdated>,
    pub session_completed: Option<SessionCompleted>,
    pub artifacts: Option<ArtifactsAdded>,
}

impl Activity {
    /// Whether the entry originated from the agent.
    pub open spec fn is_agent(self) -> bool {
        self.originator@ == "agent"@
    }

    /// Runtime check for `is_agent`.
    pub fn from_agent(&self) -> (r: bool)
        ensures
            r == self.is_agent(),
    {
        let agent: String = "agent".to_owned();
        self.originator == agent
    }
}

/// Clones an optional string, value for value.
pub fn clone_opt_string(s: &Option<String>) -> (r: Option<String>)
    ensures
        r == *s,
{
    match s {
        Some(v) => Some(v.clone()),
        None => None,
    }
}

impl Clone for GithubRepoContext {
    fn clone(&self) -> (r: Self)
        ensures
            r == *self,
    {
        GithubRepoContext { starting_branch: self.starting_branch.clone() }
    }
}

impl Clone for SourceContext {
    fn clone(&self) -> (r: Self)
        ensures
            r == *self,
    {
        SourceContext {
            source: self.source.clone(),
            github_repo_context: match &self.github_repo_context {
                Some(g) => Some(g.clone()),
                None => None,
            },
        }
    }
}

/// Clones an optional source context, value for value.
pub fn clone_opt_source_context(s: &Option<SourceContext>) -> (r: Option<SourceContext>)
    ensures
        r == *s,
{
    match s {
        Some(v) => Some(v.clone()),
        None => None,
    }
}

impl Clone for Source {
    fn clone(&self) -> (r: Self)
        ensures
            r == *self,
    {
        Source { name: self.name.clone(), id: self.id.clone() }
    }
}

impl Clone for Session {
    fn clone(&self) -> (r: Self)
        ensures
            r == *self,
    {
        Session {
            name: self.name.clone(),
            id: self.id.clone(),
            state: clone_opt_string(&self.state),
            title: self.title.clone(),
            source_context: clone_opt_source_context(&self.source_context),
        }
    }
}

impl Clone for AgentMessaged {
    fn clone(&self) -> (r: Self)
        ensures
            r == *self,
    {
        AgentMessaged { agent_message: self.agent_message.clone() }
    }
}

impl Clone for UserMessaged {
    fn clone(&self) -> (r: Self)
        ensures
            r == *self,
    {
        UserMessaged { user_message: self.user_message.clone() }
    }
}

impl Clone for PlanGenerated {
    fn clone(&self) -> (r: Self)
        ensures
            r == *self,
    {
        PlanGenerated {  }
    }
}

impl Clone for PlanApproved {
    fn clone(&self) -> (r: Self)
        ensures
            r == *self,
    {
        PlanApproved {  }
    }
}

impl Clone for ProgressUpdated {
    fn clone(&self) -> (r: Self)
        ensures
            r == *self,
    {
        ProgressUpdated {
            title: clone_opt_string(&self.title),
            description: clone_opt_string(&self.description),
        }
    }
}

impl Clone for SessionCompleted {
    fn clone(&self) -> (r: Self)
        ensures
            r == *self,
    {
        SessionCompleted {  }
    }
}

impl Clone for ArtifactsAdded {
    fn clone(&self) -> (r: Self)
        ensures
            r == *self,
    {
        ArtifactsAdded {  }
    }
}

impl Clone for Activity {
    fn clone(&self) -> (r: Self)
        ensures
            r == *self,
    {
        Activity {
            name: self.name.clone(),
            id: self.id.clone(),
            title: clone_opt_string(&self.title),
            create_time: self.create_time.clone(),
            originator: self.originator.clone(),
            agent_messaged: match &self.agent_messaged {
                Some(v) => Some(v.clone()),
                None => None,
            },
            user_messaged: match &self.user_messaged {
                Some(v) => Some(v.clone()),
                None => None,
            },
            plan_generated: match &self.plan_generated {
                Some(v) => Some(v.clone()),
                None => None,
            },
            plan_approved: match &self.plan_approved {
                Some(v) => Some(v.clone()),
                None => None,
            },
            progress_updated: match &self.progress_updated {
                Some(v) => Some(v.clone()),
                None => None,
            },
            session_completed: match &self.session_completed {
                Some(v) => Some(v.clone()),
                None => None,
            },
            artifacts: match &self.artifacts {
                Some(v) => Some(v.clone()),
                None => None,
            },
        }
    }
}

/// Clones a vector of activities, value for value.
pub fn clone_activities(v: &Vec<Activity>) -> (r: Vec<Activity>)
    ensures
        r@ == v@,
{
    let mut out: Vec<Activity> = Vec::new();
    let mut i: usize = 0;
    while i < v.len()
        invariant
            i <= v@.len(),
            out@ == v@.take(i as int),
        decreases v@.len() - i,
    {
        out.push(v[i].clone());
        proof {
            assert(out@ =~= v@.take(i + 1 as int));
        }
        i = i + 1;
    }
    proof {
        assert(v@.take(v@.len() as int) =~= v@);
    }
    out
}

} // verus!
