//! The query grammar and the normalised parameters of a search.
//!
//! A request target is read as `path?pair&pair&...`, each pair as
//! `key=value`. Values are taken verbatim: nothing is decoded, and of two
//! pairs with the same key the first one counts.

use vstd::prelude::*;
use vstd::string::*;
use crate::escape::{escape_quotes, escaped};
use crate::text::{
    after,
    copy_range,
    find_char,
    first_index,
    is_first_index,
    lemma_first_index,
    lemma_first_index_exists,
    range_equals,
};

verus! {

/// The normalised parameters of one search.
#[derive(Debug, Clone)]
pub struct SearchParams {
    pub q: String,
    pub sort: String,
    pub t: String,
    pub before: String,
    pub after: String,
    pub restrict_sr: String,
}

/// What a `SearchParams` value stands for.
pub ghost struct ParamsModel {
    pub q: Seq<char>,
    pub sort: Seq<char>,
    pub t: Seq<char>,
    pub before: Seq<char>,
    pub after: Seq<char>,
    pub restrict_sr: Seq<char>,
}

impl View for SearchParams {
    type V = ParamsModel;

    open spec fn view(&self) -> ParamsModel {
        ParamsModel {
            q: self.q@,
            sort: self.sort@,
            t: self.t@,
            before: self.before@,
            after: self.after@,
            restrict_sr: self.restrict_sr@,
        }
    }
}

impl ParamsModel {
    /// Normalised parameters always name a sort order.
    pub open spec fn wf(self) -> bool {
        self.sort.len() > 0
    }

    /// The search is confined to one community.
    pub open spec fn restricted(self) -> bool {
        self.restrict_sr.len() > 0
    }

    /// The parameters as they are shown with an answer: the query escaped
    /// for quoted markup, the cursor that the caller came with redisplayed
    /// as `before`, and the cursor that the answer ended on as `after`.
    pub open spec fn outgoing(self, cursor: Seq<char>) -> ParamsModel {
        ParamsModel {
            q: escaped(self.q),
            sort: self.sort,
            t: self.t,
            before: self.after,
            after: cursor,
            restrict_sr: self.restrict_sr,
        }
    }
}

impl SearchParams {
    /// Normalised parameters always name a sort order.
    pub open spec fn wf(&self) -> bool {
        self@.wf()
    }

    /// Turns the parameters of a request into those shown with its answer,
    /// which ended on `cursor`.
    pub fn into_outgoing(self, cursor: String) -> (out: SearchParams)
        ensures
            out@ == self@.outgoing(cursor@),
            self.wf() ==> out.wf(),
    {
        SearchParams {
            q: escape_quotes(self.q.as_str()),
            sort: self.sort,
            t: self.t,
            before: self.after,
            after: cursor,
            restrict_sr: self.restrict_sr,
        }
    }

    /// Tells whether the caller confined the search to one community.
    pub fn is_restricted(&self) -> (r: bool)
        ensures
            r == self@.restricted(),
    {
        !self.restrict_sr.as_str().is_empty()
    }
}

/// The query string of a request target: what follows its first `?`.
pub open spec fn query_of(target: Seq<char>) -> Seq<char> {
    after(target, first_index(target, '?'))
}

/// The key of a `key=value` pair: what precedes its first `=`.
pub open spec fn pair_key(pair: Seq<char>) -> Seq<char> {
    pair.subrange(0, first_index(pair, '='))
}

/// The value of a `key=value` pair: what follows its first `=`.
pub open spec fn pair_value(pair: Seq<char>) -> Seq<char> {
    after(pair, first_index(pair, '='))
}

/// The value that a query string gives to `key`: that of the first pair,
/// among those that `&` separates, whose key is `key`; empty where no pair
/// has that key.
pub open spec fn lookup(query: Seq<char>, key: Seq<char>) -> Seq<char>
    decreases query.len(),
{
    let cut = first_index(query, '&');
    let pair = query.subrange(0, cut);
    if pair_key(pair) == key {
        pair_value(pair)
    } else if 0 <= cut < query.len() {
        lookup(after(query, cut), key)
    } else {
        Seq::empty()
    }
}

/// The pairs of a query string, in order: the stretches of text that `&`
/// separates. A query string without `&` is one pair.
pub open spec fn pairs(query: Seq<char>) -> Seq<Seq<char>>
    decreases query.len(),
{
    let cut = first_index(query, '&');
    if 0 <= cut < query.len() {
        seq![query.subrange(0, cut)] + pairs(after(query, cut))
    } else {
        seq![query]
    }
}

/// Some pair of the query string has the key `key`.
pub open spec fn mentions(query: Seq<char>, key: Seq<char>) -> bool {
    exists|i: int| 0 <= i < pairs(query).len() && pair_key(#[trigger] pairs(query)[i]) == key
}

/// A parameter that no pair of the query string names has the empty value.
pub proof fn lemma_lookup_absent(query: Seq<char>, key: Seq<char>)
    requires
        !mentions(query, key),
    ensures
        lookup(query, key) == Seq::<char>::empty(),
    decreases query.len(),
{
    lemma_first_index_exists(query, '&');
    let cut = first_index(query, '&');
    assert(pairs(query)[0] == query.subrange(0, cut)) by {
        if cut == query.len() {
            assert(query.subrange(0, cut) =~= query);
        }
    }
    assert(pair_key(pairs(query)[0]) != key);
    if cut < query.len() {
        let rest = after(query, cut);
        assert forall|i: int| 0 <= i < pairs(rest).len() implies pair_key(
            #[trigger] pairs(rest)[i],
        ) != key by {
            assert(pairs(query)[i + 1] == pairs(rest)[i]);
        }
        lemma_lookup_absent(rest, key);
    }
}

/// The value of a parameter is the value of the first pair that names it.
pub proof fn lemma_lookup_first_pair(query: Seq<char>, key: Seq<char>, i: int)
    requires
        0 <= i < pairs(query).len(),
        pair_key(pairs(query)[i]) == key,
        forall|j: int| 0 <= j < i ==> pair_key(#[trigger] pairs(query)[j]) != key,
    ensures
        lookup(query, key) == pair_value(pairs(query)[i]),
    decreases query.len(),
{
    lemma_first_index_exists(query, '&');
    let cut = first_index(query, '&');
    assert(pairs(query)[0] == query.subrange(0, cut)) by {
        if cut == query.len() {
            assert(query.subrange(0, cut) =~= query);
        }
    }
    if i > 0 {
        assert(pair_key(pairs(query)[0]) != key);
        let rest = after(query, cut);
        assert(pairs(query)[i] == pairs(rest)[i - 1]);
        assert forall|j: int| 0 <= j < i - 1 implies pair_key(#[trigger] pairs(rest)[j])
            != key by {
            assert(pairs(query)[j + 1] == pairs(rest)[j]);
        }
        lemma_lookup_first_pair(rest, key, i - 1);
    }
}

/// The value that a list of pairs gives to `key`: that of the first pair
/// with that key, empty where there is none.
pub open spec fn lookup_in(list: Seq<Seq<char>>, key: Seq<char>) -> Seq<char>
    decreases list.len(),
{
    if list.len() == 0 {
        Seq::empty()
    } else if pair_key(list[0]) == key {
        pair_value(list[0])
    } else {
        lookup_in(list.subrange(1, list.len() as int), key)
    }
}

/// Reading a parameter from a query string is reading it from the list of
/// the string's pairs.
pub proof fn lemma_lookup_by_pairs(query: Seq<char>, key: Seq<char>)
    ensures
        lookup(query, key) == lookup_in(pairs(query), key),
    decreases query.len(),
{
    lemma_first_index_exists(query, '&');
    let cut = first_index(query, '&');
    let list = pairs(query);
    if cut < query.len() {
        let rest = after(query, cut);
        lemma_lookup_by_pairs(rest, key);
        assert(list[0] == query.subrange(0, cut));
        assert(list.subrange(1, list.len() as int) =~= pairs(rest));
    } else {
        assert(query.subrange(0, cut) =~= query);
        assert(list[0] == query);
        let none = list.subrange(1, list.len() as int);
        assert(none =~= Seq::<Seq<char>>::empty());
        assert(lookup_in(none, key) =~= Seq::<char>::empty());
    }
}

/// A pair added at the end of a list changes the value of no other key.
pub proof fn lemma_lookup_in_push(list: Seq<Seq<char>>, pair: Seq<char>, key: Seq<char>)
    requires
        pair_key(pair) != key,
    ensures
        lookup_in(list + seq![pair], key) == lookup_in(list, key),
    decreases list.len(),
{
    let longer = list + seq![pair];
    if list.len() == 0 {
        let none = longer.subrange(1, longer.len() as int);
        assert(longer[0] == pair);
        assert(none =~= list);
        assert(lookup_in(none, key) =~= Seq::<char>::empty());
    } else {
        let tail = list.subrange(1, list.len() as int);
        lemma_lookup_in_push(tail, pair, key);
        assert(longer[0] == list[0]);
        assert(longer.subrange(1, longer.len() as int) =~= tail + seq![pair]);
    }
}

/// A query string followed by `&` and one more pair has the pairs of the
/// query string, then that pair.
pub proof fn lemma_pairs_push(query: Seq<char>, pair: Seq<char>)
    requires
        forall|i: int| 0 <= i < pair.len() ==> pair[i] != '&',
    ensures
        pairs(query + seq!['&'] + pair) == pairs(query) + seq![pair],
    decreases query.len(),
{
    lemma_first_index_exists(query, '&');
    let cut = first_index(query, '&');
    let whole = query + seq!['&'] + pair;
    if cut < query.len() {
        assert(is_first_index(whole, '&', cut)) by {
            assert forall|j: int| 0 <= j < cut implies whole[j] != '&' by {
                assert(whole[j] == query[j]);
            }
            assert(whole[cut] == query[cut]);
        }
        lemma_first_index(whole, '&', cut);
        let rest = after(query, cut);
        lemma_pairs_push(rest, pair);
        assert(after(whole, cut) =~= rest + seq!['&'] + pair);
        assert(whole.subrange(0, cut) =~= query.subrange(0, cut));
        assert(pairs(whole) =~= pairs(query) + seq![pair]);
    } else {
        let at = query.len() as int;
        assert(is_first_index(whole, '&', at)) by {
            assert forall|j: int| 0 <= j < at implies whole[j] != '&' by {
                assert(whole[j] == query[j]);
            }
        }
        lemma_first_index(whole, '&', at);
        assert(after(whole, at) =~= pair);
        assert(whole.subrange(0, at) =~= query);
        assert(is_first_index(pair, '&', pair.len() as int));
        lemma_first_index(pair, '&', pair.len() as int);
        assert(pairs(pair) =~= seq![pair]);
        assert(pairs(whole) =~= pairs(query) + seq![pair]);
    }
}

/// The value that a request target gives to the parameter `key`.
pub open spec fn param_value(target: Seq<char>, key: Seq<char>) -> Seq<char> {
    lookup(query_of(target), key)
}

/// Reads the parameter `key` from a request target, verbatim.
pub fn param(target: &str, key: &str) -> (value: String)
    ensures
        value@ == param_value(target@, key@),
{
    let n: usize = target.unicode_len();
    let mark: usize = find_char(target, 0, n, '?');
    proof {
        assert(target@.subrange(0, n as int) =~= target@);
    }
    let mut start: usize = if mark < n { mark + 1 } else { n };
    proof {
        assert(query_of(target@) =~= target@.subrange(start as int, n as int));
    }
    loop
        invariant
            start <= n,
            n == target@.len(),
            param_value(target@, key@) == lookup(target@.subrange(start as int, n as int), key@),
        decreases n - start,
    {
        let cut: usize = find_char(target, start, n, '&');
        let eq: usize = find_char(target, start, cut, '=');
        proof {
            let rest = target@.subrange(start as int, n as int);
            let pair = rest.subrange(0, cut - start);
            assert(pair =~= target@.subrange(start as int, cut as int));
            assert(pair_key(pair) =~= target@.subrange(start as int, eq as int));
            if eq < cut {
                assert(pair_value(pair) =~= target@.subrange(eq + 1, cut as int));
            } else {
                assert(pair_value(pair) =~= Seq::<char>::empty());
            }
            if cut < n {
                assert(after(rest, cut - start) =~= target@.subrange(cut + 1, n as int));
            }
        }
        if range_equals(target, start, eq, key) {
            if eq < cut {
                return copy_range(target, eq + 1, cut);
            } else {
                return String::new();
            }
        }
        if cut >= n {
            return String::new();
        }
        start = cut + 1;
    }
}

/// The text that stands for a missing sort order.
pub open spec fn default_sort() -> Seq<char> {
    "relevance"@
}

/// The sort order of a search: the one asked for, or the default where none
/// was.
pub open spec fn sort_or_default(raw: Seq<char>) -> Seq<char> {
    if raw.len() == 0 {
        default_sort()
    } else {
        raw
    }
}

/// Applies the default sort order to an empty one.
pub fn normalize_sort(raw: String) -> (sort: String)
    ensures
        sort@ == sort_or_default(raw@),
        sort@.len() > 0,
        raw@.len() == 0 ==> sort@ == "relevance"@,
        raw@.len() > 0 ==> sort@ == raw@,
{
    proof {
        reveal_strlit("relevance");
    }
    if raw.as_str().is_empty() {
        String::from_str("relevance")
    } else {
        raw
    }
}

/// The pair that asks the upstream for adult content.
pub open spec fn adult_pair() -> Seq<char> {
    "include_over_18=on"@
}

/// The suffix that asks the upstream for adult content: one more pair
/// behind the inbound ones.
pub open spec fn adult_flag(include_adult: bool) -> Seq<char> {
    if include_adult {
        seq!['&'] + adult_pair()
    } else {
        Seq::empty()
    }
}

/// The upstream target of a content search.
pub open spec fn composed_target(path: Seq<char>, query: Seq<char>, include_adult: bool) -> Seq<
    char,
> {
    path + ".json?"@ + query + adult_flag(include_adult)
}

/// Composes the upstream target of a content search from the inbound path
/// and query string.
pub fn compose_target(path: &str, query: &str, include_adult: bool) -> (target: String)
    ensures
        target@ == composed_target(path@, query@, include_adult),
{
    let mut target = String::from_str(path);
    target.append(".json?");
    target.append(query);
    if include_adult {
        proof {
            reveal_strlit("&");
            assert("&"@ =~= seq!['&']);
            assert(target@ + "&"@ + adult_pair() =~= target@ + (seq!['&'] + adult_pair()));
        }
        target.append("&");
        target.append("include_over_18=on");
    } else {
        assert(target@ + Seq::<char>::empty() =~= target@);
    }
    target
}

/// Tells whether the preference cookie asks for adult content: only the value
/// `on` does.
pub fn wants_adult_content(cookie: &str) -> (wanted: bool)
    ensures
        wanted == (cookie@ == "on"@),
{
    let n: usize = cookie.unicode_len();
    let same = range_equals(cookie, 0, n, "on");
    proof {
        assert(cookie@.subrange(0, n as int) =~= cookie@);
    }
    same
}

/// The parameters that a composed target carries, before any answer has come
/// back: nothing is redisplayed as `before` yet, and `after` is the cursor
/// that the caller supplied.
pub open spec fn extracted(target: Seq<char>) -> ParamsModel {
    ParamsModel {
        q: param_value(target, "q"@),
        sort: sort_or_default(param_value(target, "sort"@)),
        t: param_value(target, "t"@),
        before: Seq::empty(),
        after: param_value(target, "after"@),
        restrict_sr: param_value(target, "restrict_sr"@),
    }
}

/// A request that names no sort order, or an empty one, is sorted by
/// relevance.
pub proof fn lemma_sort_defaults(target: Seq<char>)
    requires
        !mentions(query_of(target), "sort"@) || param_value(target, "sort"@).len() == 0,
    ensures
        extracted(target).sort == "relevance"@,
        extracted(target).wf(),
{
    reveal_strlit("relevance");
    if !mentions(query_of(target), "sort"@) {
        lemma_lookup_absent(query_of(target), "sort"@);
    }
}

/// Normalised parameters always name a sort order, whatever the request.
pub proof fn lemma_extracted_wf(target: Seq<char>)
    ensures
        extracted(target).wf(),
{
    reveal_strlit("relevance");
}

/// The query string of a composed target is the inbound query string,
/// followed by the flag for adult content where it was asked for. This
/// holds of every inbound path without a `?`, which a path cannot hold.
pub proof fn lemma_composed_query(path: Seq<char>, query: Seq<char>, include_adult: bool)
    requires
        forall|i: int| 0 <= i < path.len() ==> path[i] != '?',
    ensures
        query_of(composed_target(path, query, include_adult)) == query + adult_flag(
            include_adult,
        ),
{
    reveal_strlit(".json?");
    let mid = ".json?"@;
    assert(mid[0] == '.' && mid[1] == 'j' && mid[2] == 's' && mid[3] == 'o' && mid[4] == 'n'
        && mid[5] == '?');
    let whole = composed_target(path, query, include_adult);
    let at: int = path.len() as int + 5;
    assert forall|j: int| 0 <= j < at implies whole[j] != '?' by {
        if j >= path.len() {
            assert(whole[j] == mid[j - path.len()]);
        } else {
            assert(whole[j] == path[j]);
        }
    }
    assert(whole[at] == mid[5]);
    assert(is_first_index(whole, '?', at));
    lemma_first_index(whole, '?', at);
    assert(after(whole, at) =~= query + adult_flag(include_adult));
}

/// The pair that asks for adult content holds no `&`, and its key is
/// `include_over_18`.
pub proof fn lemma_adult_pair()
    ensures
        forall|i: int| 0 <= i < adult_pair().len() ==> adult_pair()[i] != '&',
        pair_key(adult_pair()) == "include_over_18"@,
{
    reveal_strlit("include_over_18=on");
    reveal_strlit("include_over_18");
    let p = adult_pair();
    let k = "include_over_18"@;
    assert(p.len() == 18 && k.len() == 15);
    assert(p[0] == 'i' && p[1] == 'n' && p[2] == 'c' && p[3] == 'l' && p[4] == 'u' && p[5] == 'd'
        && p[6] == 'e' && p[7] == '_' && p[8] == 'o' && p[9] == 'v' && p[10] == 'e' && p[11]
        == 'r' && p[12] == '_' && p[13] == '1' && p[14] == '8' && p[15] == '=' && p[16] == 'o'
        && p[17] == 'n');
    assert(k[0] == 'i' && k[1] == 'n' && k[2] == 'c' && k[3] == 'l' && k[4] == 'u' && k[5] == 'd'
        && k[6] == 'e' && k[7] == '_' && k[8] == 'o' && k[9] == 'v' && k[10] == 'e' && k[11]
        == 'r' && k[12] == '_' && k[13] == '1' && k[14] == '8');
    assert(is_first_index(p, '=', 15));
    lemma_first_index(p, '=', 15);
    assert(p.subrange(0, 15) =~= k);
}

/// Asking for adult content changes no parameter of the request but
/// `include_over_18` itself.
pub proof fn lemma_adult_flag_keeps(path: Seq<char>, query: Seq<char>, key: Seq<char>)
    requires
        forall|i: int| 0 <= i < path.len() ==> path[i] != '?',
        key != "include_over_18"@,
    ensures
        param_value(composed_target(path, query, true), key) == param_value(
            composed_target(path, query, false),
            key,
        ),
{
    lemma_composed_query(path, query, true);
    lemma_composed_query(path, query, false);
    lemma_adult_pair();
    let flagged = query + adult_flag(true);
    assert(flagged =~= query + seq!['&'] + adult_pair());
    assert(query + adult_flag(false) =~= query);
    lemma_pairs_push(query, adult_pair());
    lemma_lookup_by_pairs(flagged, key);
    lemma_lookup_by_pairs(query, key);
    lemma_lookup_in_push(pairs(query), adult_pair(), key);
}

/// The normalised parameters of a request are the same with and without the
/// flag for adult content.
pub proof fn lemma_adult_flag_keeps_params(path: Seq<char>, query: Seq<char>)
    requires
        forall|i: int| 0 <= i < path.len() ==> path[i] != '?',
    ensures
        extracted(composed_target(path, query, true)) == extracted(
            composed_target(path, query, false),
        ),
{
    reveal_strlit("include_over_18");
    reveal_strlit("q");
    reveal_strlit("sort");
    reveal_strlit("t");
    reveal_strlit("after");
    reveal_strlit("restrict_sr");
    assert("include_over_18"@.len() == 15);
    assert("q"@.len() == 1 && "sort"@.len() == 4 && "t"@.len() == 1);
    assert("after"@.len() == 5 && "restrict_sr"@.len() == 11);
    lemma_adult_flag_keeps(path, query, "q"@);
    lemma_adult_flag_keeps(path, query, "sort"@);
    lemma_adult_flag_keeps(path, query, "t"@);
    lemma_adult_flag_keeps(path, query, "after"@);
    lemma_adult_flag_keeps(path, query, "restrict_sr"@);
}

/// Reads the normalised parameters from a composed target.
pub fn read_params(target: &str) -> (params: SearchParams)
    ensures
        params@ == extracted(target@),
        params.wf(),
        param_value(target@, "sort"@).len() == 0 ==> params.sort@ == "relevance"@,
        param_value(target@, "sort"@).len() > 0 ==> params.sort@ == param_value(
            target@,
            "sort"@,
        ),
{
    SearchParams {
        q: param(target, "q"),
        sort: normalize_sort(param(target, "sort")),
        t: param(target, "t"),
        before: String::new(),
        after: param(target, "after"),
        restrict_sr: param(target, "restrict_sr"),
    }
}

/// Normalises an inbound request: composes the upstream target and reads the
/// parameters from it.
pub fn extract(path: &str, query: &str, include_adult: bool) -> (out: (SearchParams, String))
    ensures
        out.1@ == composed_target(path@, query@, include_adult),
        out.0@ == extracted(out.1@),
        out.0.wf(),
        param_value(out.1@, "sort"@).len() == 0 ==> out.0.sort@ == "relevance"@,
{
    let target = compose_target(path, query, include_adult);
    let params = read_params(target.as_str());
    (params, target)
}

} // verus!
