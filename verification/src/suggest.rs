//! Community suggestions: the lookup that asks for them and the tolerant
//! decoding of what comes back.
//!
//! Suggestions are an enhancement. A lookup that failed counts as one that
//! found nothing, and an entry that cannot be decoded is left out without
//! touching the entries around it.

use vstd::prelude::*;
use vstd::string::*;
use crate::number::{truncate_double, truncated};

verus! {

/// A community offered beside the search results.
#[derive(Debug, Clone)]
pub struct Subreddit {
    pub name: String,
    pub url: String,
    pub description: String,
    pub subscribers: i64,
}

/// What a `Subreddit` value stands for.
pub ghost struct SubredditModel {
    pub name: Seq<char>,
    pub url: Seq<char>,
    pub description: Seq<char>,
    pub subscribers: int,
}

impl View for Subreddit {
    type V = SubredditModel;

    open spec fn view(&self) -> SubredditModel {
        SubredditModel {
            name: self.name@,
            url: self.url@,
            description: self.description@,
            subscribers: self.subscribers as int,
        }
    }
}

impl SubredditModel {
    /// A suggestion never shows a negative number of subscribers.
    pub open spec fn wf(self) -> bool {
        self.subscribers >= 0
    }
}

/// One entry of an upstream payload, with each field as far as the payload
/// gave it. The subscriber count is the upstream number as it came: the bits
/// of a double, which may have a fractional part.
#[derive(Debug, Clone)]
pub struct CommunityEntry {
    pub name: Option<String>,
    pub url: Option<String>,
    pub description: Option<String>,
    pub subscribers: Option<u64>,
}

/// What a `CommunityEntry` value stands for. The subscriber count is the
/// upstream number cut down to an integer.
pub ghost struct EntryModel {
    pub name: Option<Seq<char>>,
    pub url: Option<Seq<char>>,
    pub description: Option<Seq<char>>,
    pub subscribers: Option<int>,
}

/// The text of an optional string.
pub open spec fn text_model(s: Option<String>) -> Option<Seq<char>> {
    match s {
        Some(t) => Some(t@),
        None => None,
    }
}

impl View for CommunityEntry {
    type V = EntryModel;

    open spec fn view(&self) -> EntryModel {
        EntryModel {
            name: text_model(self.name),
            url: text_model(self.url),
            description: text_model(self.description),
            subscribers: match self.subscribers {
                Some(bits) => Some(truncated(bits)),
                None => None,
            },
        }
    }
}

/// The entries of a payload as their models, in order.
pub open spec fn entry_models(entries: Seq<CommunityEntry>) -> Seq<EntryModel> {
    Seq::new(entries.len(), |i: int| entries[i]@)
}

/// The suggestions of a list as their models, in order.
pub open spec fn subreddit_models(subs: Seq<Subreddit>) -> Seq<SubredditModel> {
    Seq::new(subs.len(), |i: int| subs[i]@)
}

/// An optional text, empty where it is missing.
pub open spec fn text_or_empty(s: Option<Seq<char>>) -> Seq<char> {
    match s {
        Some(t) => t,
        None => Seq::empty(),
    }
}

impl EntryModel {
    /// An entry can be shown when it names its community and does not claim
    /// a negative number of subscribers.
    pub open spec fn usable(self) -> bool {
        &&& self.name is Some
        &&& self.subscribers is Some ==> self.subscribers->0 >= 0
    }

    /// The suggestion that a usable entry gives: a missing address or
    /// description is empty, a missing subscriber count is zero.
    pub open spec fn decoded(self) -> SubredditModel {
        SubredditModel {
            name: text_or_empty(self.name),
            url: text_or_empty(self.url),
            description: text_or_empty(self.description),
            subscribers: match self.subscribers {
                Some(n) => n,
                None => 0,
            },
        }
    }

    /// What one entry adds to the list of suggestions.
    pub open spec fn contribution(self) -> Seq<SubredditModel> {
        if self.usable() {
            seq![self.decoded()]
        } else {
            Seq::empty()
        }
    }
}

/// The suggestions that a payload gives: its usable entries, decoded, in
/// the payload's order.
pub open spec fn suggestions_of(entries: Seq<EntryModel>) -> Seq<SubredditModel>
    decreases entries.len(),
{
    if entries.len() == 0 {
        Seq::empty()
    } else {
        suggestions_of(entries.drop_last()) + entries.last().contribution()
    }
}

/// What the outcome of a lookup gives: nothing where the lookup failed.
pub open spec fn absorbed(outcome: Option<Seq<EntryModel>>) -> Seq<SubredditModel> {
    match outcome {
        Some(entries) => suggestions_of(entries),
        None => Seq::empty(),
    }
}

/// The model of a lookup's outcome.
pub open spec fn outcome_model(outcome: Option<Vec<CommunityEntry>>) -> Option<Seq<EntryModel>> {
    match outcome {
        Some(entries) => Some(entry_models(entries@)),
        None => None,
    }
}

fn text_of(s: &Option<String>) -> (out: String)
    ensures
        out@ == text_or_empty(text_model(*s)),
{
    match s {
        Some(t) => t.clone(),
        None => String::new(),
    }
}

/// Decodes one entry, or tells that it cannot be shown.
pub fn decode_entry(entry: &CommunityEntry) -> (out: Option<Subreddit>)
    ensures
        out is Some <==> entry@.usable(),
        out is Some ==> out->0@ == entry@.decoded() && out->0@.wf(),
        out is Some && entry.subscribers is Some ==> out->0.subscribers == truncated(
            entry.subscribers->0,
        ),
{
    if entry.name.is_none() {
        return None;
    }
    let subscribers: i64 = match entry.subscribers {
        Some(bits) => truncate_double(bits),
        None => 0,
    };
    if subscribers < 0 {
        return None;
    }
    Some(
        Subreddit {
            name: text_of(&entry.name),
            url: text_of(&entry.url),
            description: text_of(&entry.description),
            subscribers,
        },
    )
}

/// Decodes a payload: each usable entry gives one suggestion, in the
/// payload's order, and the others are left out.
pub fn decode_entries(entries: &Vec<CommunityEntry>) -> (out: Vec<Subreddit>)
    ensures
        subreddit_models(out@) == suggestions_of(entry_models(entries@)),
        forall|i: int| 0 <= i < out@.len() ==> (#[trigger] out@[i])@.wf(),
{
    let mut out: Vec<Subreddit> = Vec::new();
    let mut i: usize = 0;
    let ghost all = entry_models(entries@);
    proof {
        assert(all.subrange(0, 0) =~= Seq::<EntryModel>::empty());
        assert(subreddit_models(out@) =~= Seq::<SubredditModel>::empty());
    }
    while i < entries.len()
        invariant
            i <= entries.len(),
            all == entry_models(entries@),
            subreddit_models(out@) == suggestions_of(all.subrange(0, i as int)),
            forall|k: int| 0 <= k < out@.len() ==> (#[trigger] out@[k])@.wf(),
        decreases entries.len() - i,
    {
        let ghost before = out@;
        let decoded = decode_entry(&entries[i]);
        proof {
            let grown = all.subrange(0, i + 1);
            assert(grown.drop_last() =~= all.subrange(0, i as int));
            assert(grown.last() == entries@[i as int]@);
        }
        match decoded {
            Some(sub) => {
                out.push(sub);
                proof {
                    assert(subreddit_models(out@) =~= subreddit_models(before) + seq![sub@]);
                }
            },
            None => {
                proof {
                    assert(subreddit_models(before) + Seq::<SubredditModel>::empty()
                        =~= subreddit_models(before));
                }
            },
        }
        i += 1;
    }
    proof {
        assert(all.subrange(0, i as int) =~= all);
    }
    out
}

/// Turns the outcome of a lookup into suggestions. A lookup that failed
/// gives none: it never fails the search.
pub fn absorb(outcome: &Option<Vec<CommunityEntry>>) -> (out: Vec<Subreddit>)
    ensures
        subreddit_models(out@) == absorbed(outcome_model(*outcome)),
        *outcome is None ==> out@.len() == 0,
        forall|i: int| 0 <= i < out@.len() ==> (#[trigger] out@[i])@.wf(),
{
    match outcome {
        Some(entries) => decode_entries(entries),
        None => {
            let out: Vec<Subreddit> = Vec::new();
            proof {
                assert(subreddit_models(out@) =~= Seq::<SubredditModel>::empty());
            }
            out
        },
    }
}

/// The query text as it stands in the lookup: each space replaced by `+`,
/// every other character as it is.
pub open spec fn plus_for_space(q: Seq<char>) -> Seq<char> {
    q.map_values(|c: char| if c == ' ' { '+' } else { c })
}

/// The upstream target of a community lookup. It asks for three
/// communities at most.
pub open spec fn suggestion_target(q: Seq<char>) -> Seq<char> {
    "/subreddits/search.json?q="@ + plus_for_space(q) + "&limit=3"@
}

/// Composes the upstream target of the community lookup for a query.
pub fn compose_suggestion_target(q: &str) -> (target: String)
    ensures
        target@ == suggestion_target(q@),
{
    let n: usize = q.unicode_len();
    let mut target = String::from_str("/subreddits/search.json?q=");
    let ghost head = target@;
    let mut i: usize = 0;
    proof {
        assert(head + plus_for_space(q@.subrange(0, 0)) =~= head);
    }
    while i < n
        invariant
            i <= n,
            n == q@.len(),
            head == "/subreddits/search.json?q="@,
            target@ == head + plus_for_space(q@.subrange(0, i as int)),
        decreases n - i,
    {
        let c = q.get_char(i);
        let ghost before = target@;
        if c == ' ' {
            target.append("+");
            proof {
                reveal_strlit("+");
                assert("+"@ =~= seq!['+']);
            }
        } else {
            target.append(q.substring_char(i, i + 1));
            proof {
                assert(q@.subrange(i as int, i + 1) =~= seq![c]);
            }
        }
        proof {
            assert(plus_for_space(q@.subrange(0, i + 1)) =~= plus_for_space(
                q@.subrange(0, i as int),
            ) + seq![if c == ' ' { '+' } else { c }]);
            assert(target@ =~= head + plus_for_space(q@.subrange(0, i + 1)));
        }
        i += 1;
    }
    proof {
        assert(q@.subrange(0, n as int) =~= q@);
    }
    target.append("&limit=3");
    target
}

/// An entry that cannot be shown leaves the suggestions around it as they
/// are, and a payload read in two parts gives the suggestions of the first
/// part followed by those of the second.
pub proof fn lemma_suggestions_concat(a: Seq<EntryModel>, b: Seq<EntryModel>)
    ensures
        suggestions_of(a + b) == suggestions_of(a) + suggestions_of(b),
    decreases b.len(),
{
    if b.len() == 0 {
        assert(a + b =~= a);
        assert(suggestions_of(a) + suggestions_of(b) =~= suggestions_of(a));
    } else {
        lemma_suggestions_concat(a, b.drop_last());
        assert((a + b).drop_last() =~= a + b.drop_last());
        assert((a + b).last() == b.last());
        assert(suggestions_of(a + b) =~= suggestions_of(a) + suggestions_of(b));
    }
}

/// One entry that cannot be shown, anywhere in a payload, is skipped alone.
pub proof fn lemma_unusable_entry_skipped(a: Seq<EntryModel>, bad: EntryModel, b: Seq<EntryModel>)
    requires
        !bad.usable(),
    ensures
        suggestions_of(a + seq![bad] + b) == suggestions_of(a) + suggestions_of(b),
{
    lemma_suggestions_concat(a + seq![bad], b);
    lemma_suggestions_concat(a, seq![bad]);
    let one = seq![bad];
    assert(one.drop_last() =~= Seq::<EntryModel>::empty());
    assert(suggestions_of(one.drop_last()) =~= Seq::<SubredditModel>::empty());
    assert(one.last() == bad);
    assert(suggestions_of(one) =~= Seq::<SubredditModel>::empty());
    assert(suggestions_of(a) + Seq::<SubredditModel>::empty() =~= suggestions_of(a));
}

/// Every suggestion that a payload gives is well formed, and there are no
/// more of them than entries.
pub proof fn lemma_suggestions_wf(entries: Seq<EntryModel>)
    ensures
        suggestions_of(entries).len() <= entries.len(),
        forall|i: int|
            0 <= i < suggestions_of(entries).len() ==> (#[trigger] suggestions_of(entries)[i]).wf(),
    decreases entries.len(),
{
    if entries.len() > 0 {
        lemma_suggestions_wf(entries.drop_last());
        let head = suggestions_of(entries.drop_last());
        assert forall|i: int| 0 <= i < suggestions_of(entries).len() implies (
        #[trigger] suggestions_of(entries)[i]).wf() by {
            if i < head.len() {
                assert(suggestions_of(entries)[i] == head[i]);
            }
        }
    }
}

} // verus!
