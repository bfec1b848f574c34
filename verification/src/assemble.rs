//! The two phases of a search: what to ask the upstream, and what to make
//! of its answers.
//!
//! `plan` decides the lookups of a request. The caller performs them, in any
//! order or at once, and hands both outcomes to `assemble`, which either
//! fails with the content search or merges the two into one view.

use vstd::prelude::*;
use vstd::string::*;
use crate::params::{
    composed_target,
    extract,
    extracted,
    wants_adult_content,
    ParamsModel,
    SearchParams,
};
use crate::suggest::{
    absorb,
    absorbed,
    compose_suggestion_target,
    outcome_model,
    subreddit_models,
    suggestion_target,
    CommunityEntry,
    Subreddit,
    SubredditModel,
};

verus! {

/// What the transport read from an inbound request: the path, the query
/// string (empty where there is none), the community that the route named
/// (empty for a search everywhere), and the value of the cookie that asks
/// for adult content.
#[derive(Debug, Clone)]
pub struct SearchRequest {
    pub path: String,
    pub query: String,
    pub sub: String,
    pub nsfw_cookie: String,
}

/// The lookups that a request calls for.
#[derive(Debug, Clone)]
pub struct FetchPlan {
    /// The target of the content search.
    pub content_target: String,
    /// The pagination token of the content search.
    pub pagination_token: String,
    /// The target of the community lookup, where one is to be made.
    pub suggestion_target: Option<String>,
    /// The normalised parameters of the request.
    pub params: SearchParams,
    /// The community that the route named.
    pub sub: String,
}

/// What is handed to the renderer: the content items and the suggestions,
/// each in upstream order, the community searched, the parameters to show,
/// and the caller's display preferences.
#[derive(Debug, Clone)]
pub struct SearchView<P, F> {
    pub posts: Vec<P>,
    pub subreddits: Vec<Subreddit>,
    pub sub: String,
    pub params: SearchParams,
    pub prefs: F,
}

/// The target of the community lookup that goes with the parameters: none
/// for a search that is confined to one community.
pub open spec fn planned_suggestion(params: ParamsModel) -> Option<Seq<char>> {
    if params.restricted() {
        None
    } else {
        Some(suggestion_target(params.q))
    }
}

/// The suggestions shown with the parameters, given the outcome of the
/// community lookup: none for a confined search, whatever the outcome.
pub open spec fn shown_suggestions(
    params: ParamsModel,
    outcome: Option<Vec<CommunityEntry>>,
) -> Seq<SubredditModel> {
    if params.restricted() {
        Seq::empty()
    } else {
        absorbed(outcome_model(outcome))
    }
}

impl FetchPlan {
    /// The plan is the one that `request` calls for.
    pub open spec fn is_plan_of(&self, request: &SearchRequest) -> bool {
        &&& self.content_target@ == composed_target(
            request.path@,
            request.query@,
            request.nsfw_cookie@ == "on"@,
        )
        &&& self.pagination_token@ == Seq::<char>::empty()
        &&& self.params@ == extracted(self.content_target@)
        &&& self.suggestion_target is Some <==> planned_suggestion(self.params@) is Some
        &&& self.suggestion_target is Some ==> self.suggestion_target->0@ == planned_suggestion(
            self.params@,
        )->0
        &&& self.sub@ == request.sub@
    }

    /// Tells whether the community lookup is to be made.
    pub fn wants_suggestions(&self) -> (wanted: bool)
        ensures
            wanted == self.suggestion_target is Some,
    {
        self.suggestion_target.is_some()
    }
}

/// First phase: decides the lookups of a request. The content search is
/// always made, from its first page; the community lookup is made exactly
/// when the search is not confined to one community.
pub fn plan(request: &SearchRequest) -> (out: FetchPlan)
    ensures
        out.is_plan_of(request),
        out.params.wf(),
        out.suggestion_target is None <==> out.params@.restricted(),
{
    let include_adult = wants_adult_content(request.nsfw_cookie.as_str());
    let (params, content_target) = extract(
        request.path.as_str(),
        request.query.as_str(),
        include_adult,
    );
    let suggestion_target = if params.is_restricted() {
        None
    } else {
        Some(compose_suggestion_target(params.q.as_str()))
    };
    FetchPlan {
        content_target,
        pagination_token: String::new(),
        suggestion_target,
        params,
        sub: request.sub.clone(),
    }
}

/// Second phase: merges the outcomes of the two lookups. A content search
/// that failed fails the request with its message, whatever the community
/// lookup gave. Otherwise the view holds the items as they came, the
/// suggestions that the community lookup gave (none where it failed or was
/// not to be made), and the parameters to show with the answer.
pub fn assemble<P, F>(
    plan: FetchPlan,
    content: Result<(Vec<P>, String), String>,
    suggestions: Option<Vec<CommunityEntry>>,
    prefs: F,
) -> (out: Result<SearchView<P, F>, String>)
    ensures
        content is Err ==> out == Err::<SearchView<P, F>, String>(content->Err_0),
        content is Ok ==> out is Ok,
        content is Ok ==> {
            let view = out->Ok_0;
            &&& view.posts == content->Ok_0.0
            &&& view.sub == plan.sub
            &&& view.prefs == prefs
            &&& view.params@ == plan.params@.outgoing(content->Ok_0.1@)
            &&& subreddit_models(view.subreddits@) == shown_suggestions(plan.params@, suggestions)
            &&& forall|i: int|
                0 <= i < view.subreddits@.len() ==> (#[trigger] view.subreddits@[i])@.wf()
            &&& plan.params.wf() ==> view.params.wf()
        },
        content is Ok && plan.params@.restricted() ==> out->Ok_0.subreddits@.len() == 0,
        content is Ok && suggestions is None ==> out->Ok_0.subreddits@.len() == 0,
{
    match content {
        Err(message) => Err(message),
        Ok((posts, cursor)) => {
            let subreddits = if plan.params.is_restricted() {
                let none: Vec<Subreddit> = Vec::new();
                proof {
                    assert(subreddit_models(none@) =~= Seq::<SubredditModel>::empty());
                }
                none
            } else {
                absorb(&suggestions)
            };
            Ok(
                SearchView {
                    posts,
                    subreddits,
                    sub: plan.sub,
                    params: plan.params.into_outgoing(cursor),
                    prefs,
                },
            )
        },
    }
}

} // verus!
