use search_aggregation::assemble::{assemble, plan, FetchPlan, SearchRequest, SearchView};
use search_aggregation::escape::escape_quotes;
use search_aggregation::number::truncate_double;
use search_aggregation::params::{
    compose_target, extract, normalize_sort, param, read_params, wants_adult_content,
};
use search_aggregation::suggest::{
    absorb, compose_suggestion_target, decode_entries, decode_entry, CommunityEntry,
};

fn request(path: &str, query: &str, sub: &str, cookie: &str) -> SearchRequest {
    SearchRequest {
        path: path.to_string(),
        query: query.to_string(),
        sub: sub.to_string(),
        nsfw_cookie: cookie.to_string(),
    }
}

fn entry(name: Option<&str>, url: Option<&str>, description: Option<&str>, subscribers: Option<f64>) -> CommunityEntry {
    CommunityEntry {
        name: name.map(|s| s.to_string()),
        url: url.map(|s| s.to_string()),
        description: description.map(|s| s.to_string()),
        subscribers: subscribers.map(f64::to_bits),
    }
}

fn posts(names: &[&str]) -> Vec<String> {
    names.iter().map(|s| s.to_string()).collect()
}

#[test]
fn param_reads_value_verbatim() {
    assert_eq!(param("/search.json?q=cats&sort=new", "q"), "cats");
    assert_eq!(param("/search.json?q=cats&sort=new", "sort"), "new");
    assert_eq!(param("/search.json?q=big%20cats+now", "q"), "big%20cats+now");
}

#[test]
fn param_absent_is_empty() {
    assert_eq!(param("/search.json?q=cats", "sort"), "");
    assert_eq!(param("/search.json", "q"), "");
    assert_eq!(param("/search.json?", "q"), "");
    assert_eq!(param("", "q"), "");
}

#[test]
fn param_without_value_is_empty() {
    assert_eq!(param("/search.json?q&sort=", "q"), "");
    assert_eq!(param("/search.json?q&sort=", "sort"), "");
}

#[test]
fn param_first_pair_counts() {
    assert_eq!(param("/search.json?sort=new&sort=top", "sort"), "new");
    assert_eq!(param("/search.json?sort=&sort=top", "sort"), "");
}

#[test]
fn param_value_keeps_later_equals_signs() {
    assert_eq!(param("/search.json?q=a=b=c&t=day", "q"), "a=b=c");
    assert_eq!(param("/search.json?q=a=b=c&t=day", "t"), "day");
}

#[test]
fn param_key_must_match_whole_key() {
    assert_eq!(param("/search.json?sorted=1&sort=hot", "sort"), "hot");
    assert_eq!(param("/search.json?restrict_sr=on", "sr"), "");
    assert_eq!(param("/search.json?q=x", ""), "");
    assert_eq!(param("/search.json?=x", ""), "x");
}

#[test]
fn param_reads_only_after_first_question_mark() {
    assert_eq!(param("/q=1/search.json?q=2", "q"), "2");
    assert_eq!(param("/search.json?q=a?b", "q"), "a?b");
}

#[test]
fn param_handles_non_ascii_text() {
    assert_eq!(param("/search.json?q=caf\u{e9}&t=\u{65e5}", "q"), "caf\u{e9}");
    assert_eq!(param("/search.json?q=caf\u{e9}&t=\u{65e5}", "t"), "\u{65e5}");
}

#[test]
fn sort_defaults_to_relevance_when_absent() {
    let (params, _) = extract("/search", "q=cats", false);
    assert_eq!(params.sort, "relevance");
}

#[test]
fn sort_defaults_to_relevance_when_empty() {
    let (params, _) = extract("/search", "q=cats&sort=", false);
    assert_eq!(params.sort, "relevance");
    assert_eq!(normalize_sort(String::new()), "relevance");
}

#[test]
fn sort_is_passed_through_unvalidated() {
    let (params, _) = extract("/search", "q=cats&sort=no-such-order", false);
    assert_eq!(params.sort, "no-such-order");
    assert_eq!(normalize_sort("top".to_string()), "top");
}

#[test]
fn compose_target_without_adult_content() {
    assert_eq!(compose_target("/search", "q=cats&sort=new", false), "/search.json?q=cats&sort=new");
    assert_eq!(compose_target("/r/cats/search", "", false), "/r/cats/search.json?");
}

#[test]
fn compose_target_with_adult_content() {
    assert_eq!(
        compose_target("/search", "q=cats", true),
        "/search.json?q=cats&include_over_18=on"
    );
    assert_eq!(compose_target("/search", "", true), "/search.json?&include_over_18=on");
}

#[test]
fn adult_content_only_for_cookie_on() {
    assert!(wants_adult_content("on"));
    assert!(!wants_adult_content(""));
    assert!(!wants_adult_content("off"));
    assert!(!wants_adult_content("On"));
    assert!(!wants_adult_content("on "));
    assert!(!wants_adult_content("o"));
}

#[test]
fn extract_reads_every_parameter() {
    let (params, target) = extract("/r/pics/search", "q=cats&sort=top&t=week&after=t3_abc&restrict_sr=on", true);
    assert_eq!(target, "/r/pics/search.json?q=cats&sort=top&t=week&after=t3_abc&restrict_sr=on&include_over_18=on");
    assert_eq!(params.q, "cats");
    assert_eq!(params.sort, "top");
    assert_eq!(params.t, "week");
    assert_eq!(params.before, "");
    assert_eq!(params.after, "t3_abc");
    assert_eq!(params.restrict_sr, "on");
    assert!(params.is_restricted());
}

#[test]
fn extract_of_empty_query_degrades_to_defaults() {
    let (params, target) = extract("/search", "", false);
    assert_eq!(target, "/search.json?");
    assert_eq!(params.q, "");
    assert_eq!(params.sort, "relevance");
    assert_eq!(params.t, "");
    assert_eq!(params.before, "");
    assert_eq!(params.after, "");
    assert_eq!(params.restrict_sr, "");
    assert!(!params.is_restricted());
}

#[test]
fn read_params_agrees_with_param() {
    let target = "/search.json?q=a&t=day&after=x";
    let params = read_params(target);
    assert_eq!(params.q, param(target, "q"));
    assert_eq!(params.t, param(target, "t"));
    assert_eq!(params.after, param(target, "after"));
}

#[test]
fn escape_replaces_double_quotes_only() {
    assert_eq!(escape_quotes("say \"hi\""), "say &quot;hi&quot;");
    assert_eq!(escape_quotes("\""), "&quot;");
    assert_eq!(escape_quotes("<b>&'x'</b>"), "<b>&'x'</b>");
    assert_eq!(escape_quotes(""), "");
    assert_eq!(escape_quotes("&quot;"), "&quot;");
    assert_eq!(escape_quotes("caf\u{e9} \"\u{65e5}\""), "caf\u{e9} &quot;\u{65e5}&quot;");
}

#[test]
fn escape_grows_by_five_per_quote() {
    let text = "a\"b\"\"c";
    let out = escape_quotes(text);
    assert_eq!(out.chars().count(), text.chars().count() + 5 * 3);
    assert!(!out.contains('"'));
}

#[test]
fn displayed_query_is_escaped() {
    let p = plan(&request("/search", "q=\"big cats\"", "", ""));
    assert_eq!(p.params.q, "\"big cats\"");
    let view = assemble(p, Ok((posts(&[]), String::new())), None, ()).unwrap();
    assert_eq!(view.params.q, "&quot;big cats&quot;");
}

#[test]
fn suggestion_target_replaces_spaces() {
    assert_eq!(compose_suggestion_target("cats"), "/subreddits/search.json?q=cats&limit=3");
    assert_eq!(
        compose_suggestion_target("big fluffy cats"),
        "/subreddits/search.json?q=big+fluffy+cats&limit=3"
    );
    assert_eq!(compose_suggestion_target(" "), "/subreddits/search.json?q=+&limit=3");
    assert_eq!(compose_suggestion_target(""), "/subreddits/search.json?q=&limit=3");
}

#[test]
fn suggestion_target_passes_other_characters_through() {
    assert_eq!(
        compose_suggestion_target("a&b=c#d\"e"),
        "/subreddits/search.json?q=a&b=c#d\"e&limit=3"
    );
}

#[test]
fn decode_entry_with_all_fields() {
    let sub = decode_entry(&entry(Some("r/cats"), Some("/r/cats/"), Some("Cats."), Some(12345.0))).unwrap();
    assert_eq!(sub.name, "r/cats");
    assert_eq!(sub.url, "/r/cats/");
    assert_eq!(sub.description, "Cats.");
    assert_eq!(sub.subscribers, 12345);
}

#[test]
fn decode_entry_defaults_optional_fields() {
    let sub = decode_entry(&entry(Some("r/cats"), None, None, None)).unwrap();
    assert_eq!(sub.name, "r/cats");
    assert_eq!(sub.url, "");
    assert_eq!(sub.description, "");
    assert_eq!(sub.subscribers, 0);
}

#[test]
fn decode_entry_drops_entry_without_name() {
    assert!(decode_entry(&entry(None, Some("/r/cats/"), Some("Cats."), Some(5.0))).is_none());
}

#[test]
fn decode_entry_drops_negative_subscribers() {
    assert!(decode_entry(&entry(Some("r/cats"), None, None, Some(-1.0))).is_none());
    assert!(decode_entry(&entry(Some("r/cats"), None, None, Some(-1e300))).is_none());
    assert!(decode_entry(&entry(Some("r/cats"), None, None, Some(f64::NEG_INFINITY))).is_none());
    assert!(decode_entry(&entry(Some("r/cats"), None, None, Some(0.0))).is_some());
    assert!(decode_entry(&entry(Some("r/cats"), None, None, Some(-0.75))).is_some());
    assert!(decode_entry(&entry(Some("r/cats"), None, None, Some(1e300))).is_some());
}

#[test]
fn one_bad_entry_does_not_discard_the_rest() {
    let entries = vec![
        entry(Some("r/a"), None, None, Some(1.0)),
        entry(None, None, None, Some(2.0)),
        entry(Some("r/c"), None, None, Some(3.0)),
        entry(Some("r/d"), None, None, Some(-4.0)),
        entry(Some("r/e"), None, None, Some(5.0)),
    ];
    let subs = decode_entries(&entries);
    let names: Vec<&str> = subs.iter().map(|s| s.name.as_str()).collect();
    assert_eq!(names, vec!["r/a", "r/c", "r/e"]);
    let counts: Vec<i64> = subs.iter().map(|s| s.subscribers).collect();
    assert_eq!(counts, vec![1, 3, 5]);
}

#[test]
fn absorb_failed_lookup_gives_nothing() {
    assert!(absorb(&None).is_empty());
    assert!(absorb(&Some(Vec::new())).is_empty());
    assert_eq!(absorb(&Some(vec![entry(Some("r/a"), None, None, None)])).len(), 1);
}

#[test]
fn plan_unrestricted_search_asks_for_suggestions() {
    let p = plan(&request("/search", "q=big cats&restrict_sr=", "", ""));
    assert!(p.wants_suggestions());
    assert_eq!(
        p.suggestion_target.as_deref(),
        Some("/subreddits/search.json?q=big+cats&limit=3")
    );
    assert_eq!(p.content_target, "/search.json?q=big cats&restrict_sr=");
    assert_eq!(p.pagination_token, "");
}

#[test]
fn plan_restricted_search_never_asks_for_suggestions() {
    for restrict in ["on", "dogs", "0", " "] {
        let query = format!("q=dogs&restrict_sr={}", restrict);
        let p = plan(&request("/r/dogs/search", &query, "dogs", ""));
        assert!(!p.wants_suggestions());
        assert!(p.suggestion_target.is_none());
        assert_eq!(p.sub, "dogs");
    }
}

#[test]
fn plan_appends_adult_flag_for_cookie() {
    let p = plan(&request("/search", "q=x", "", "on"));
    assert_eq!(p.content_target, "/search.json?q=x&include_over_18=on");
    let p = plan(&request("/search", "q=x", "", "off"));
    assert_eq!(p.content_target, "/search.json?q=x");
}

#[test]
fn cats_sorted_new_with_one_suggestion() {
    let p = plan(&request("/search", "q=cats&sort=new&restrict_sr=", "", ""));
    assert!(p.wants_suggestions());
    let content = Ok((posts(&["item1", "item2"]), "c2".to_string()));
    let suggestions = Some(vec![entry(Some("r/cats"), None, None, Some(12345.0))]);
    let view = assemble(p, content, suggestions, ()).unwrap();
    assert_eq!(view.posts, posts(&["item1", "item2"]));
    assert_eq!(view.posts.len(), 2);
    assert_eq!(view.subreddits.len(), 1);
    assert_eq!(view.subreddits[0].name, "r/cats");
    assert_eq!(view.subreddits[0].subscribers, 12345);
    assert_eq!(view.params.after, "c2");
    assert_eq!(view.params.before, "");
    assert_eq!(view.params.q, "cats");
    assert_eq!(view.params.sort, "new");
    assert_eq!(view.params.restrict_sr, "");
    assert_eq!(view.sub, "");
}

#[test]
fn restricted_search_shows_no_suggestions() {
    let p = plan(&request("/r/dogs/search", "q=dogs&restrict_sr=dogs", "dogs", ""));
    assert!(!p.wants_suggestions());
    let handed_in_anyway = Some(vec![entry(Some("r/dogs"), None, None, Some(9.0))]);
    let view = assemble(p, Ok((posts(&["a"]), "n".to_string())), handed_in_anyway, ()).unwrap();
    assert!(view.subreddits.is_empty());
    assert_eq!(view.sub, "dogs");
    assert_eq!(view.params.restrict_sr, "dogs");
    assert_eq!(view.params.sort, "relevance");
}

#[test]
fn content_failure_carries_its_message() {
    let p = plan(&request("/search", "q=cats", "", ""));
    let content: Result<(Vec<String>, String), String> = Err("connection reset by peer".to_string());
    let out = assemble(p, content, Some(vec![entry(Some("r/cats"), None, None, Some(1.0))]), ());
    assert_eq!(out.unwrap_err(), "connection reset by peer");
}

#[test]
fn content_failure_is_fatal_whatever_the_suggestions() {
    for suggestions in [None, Some(Vec::new()), Some(vec![entry(Some("r/x"), None, None, None)])] {
        let p = plan(&request("/search", "q=cats", "", ""));
        let content: Result<(Vec<String>, String), String> = Err("boom".to_string());
        let out: Result<SearchView<String, ()>, String> = assemble(p, content, suggestions, ());
        assert!(matches!(out, Err(ref m) if m == "boom"));
    }
}

#[test]
fn failed_suggestion_lookup_still_succeeds() {
    let p = plan(&request("/search", "q=cats", "", ""));
    let view = assemble(p, Ok((posts(&["one"]), "c".to_string())), None, 7_u8).unwrap();
    assert!(view.subreddits.is_empty());
    assert_eq!(view.posts, posts(&["one"]));
    assert_eq!(view.prefs, 7);
}

#[test]
fn caller_cursor_is_redisplayed_as_before() {
    let p = plan(&request("/search", "q=cats&after=t3_old", "", ""));
    assert_eq!(p.params.after, "t3_old");
    let view = assemble(p, Ok((posts(&[]), "t3_new".to_string())), None, ()).unwrap();
    assert_eq!(view.params.before, "t3_old");
    assert_eq!(view.params.after, "t3_new");
}

#[test]
fn assemble_goes_by_the_parameters_of_the_plan() {
    let p: FetchPlan = plan(&request("/search", "q=a&t=year", "", ""));
    let params = p.params.clone().into_outgoing("z".to_string());
    let view = assemble(p, Ok((vec![1_u32, 2, 3], "z".to_string())), None, ()).unwrap();
    assert_eq!(view.params.q, params.q);
    assert_eq!(view.params.t, "year");
    assert_eq!(view.params.after, params.after);
    assert_eq!(view.posts, vec![1, 2, 3]);
}

#[test]
fn subscribers_are_truncated_not_rounded() {
    let sub = decode_entry(&entry(Some("r/cats"), None, None, Some(12345.999))).unwrap();
    assert_eq!(sub.subscribers, 12345);
    let sub = decode_entry(&entry(Some("r/cats"), None, None, Some(0.999))).unwrap();
    assert_eq!(sub.subscribers, 0);
    let sub = decode_entry(&entry(Some("r/cats"), None, None, Some(-0.999))).unwrap();
    assert_eq!(sub.subscribers, 0);
    let sub = decode_entry(&entry(Some("r/cats"), None, None, Some(f64::NAN))).unwrap();
    assert_eq!(sub.subscribers, 0);
}

#[test]
fn truncate_double_exact_values() {
    assert_eq!(truncate_double(12345.0_f64.to_bits()), 12345);
    assert_eq!(truncate_double(12345.5_f64.to_bits()), 12345);
    assert_eq!(truncate_double((-12345.5_f64).to_bits()), -12345);
    assert_eq!(truncate_double(0.0_f64.to_bits()), 0);
    assert_eq!(truncate_double((-0.0_f64).to_bits()), 0);
    assert_eq!(truncate_double(1.0_f64.to_bits()), 1);
    assert_eq!(truncate_double(0.5_f64.to_bits()), 0);
    assert_eq!(truncate_double(1.9999999999999998_f64.to_bits()), 1);
    assert_eq!(truncate_double(9007199254740992.0_f64.to_bits()), 9007199254740992);
    assert_eq!(truncate_double(9007199254740993.0_f64.to_bits()), 9007199254740992);
    assert_eq!(truncate_double(4611686018427387904.0_f64.to_bits()), 4611686018427387904);
}

#[test]
fn truncate_double_pins_to_the_integer_range() {
    assert_eq!(truncate_double(f64::INFINITY.to_bits()), i64::MAX);
    assert_eq!(truncate_double(f64::NEG_INFINITY.to_bits()), i64::MIN);
    assert_eq!(truncate_double(f64::MAX.to_bits()), i64::MAX);
    assert_eq!(truncate_double(f64::MIN.to_bits()), i64::MIN);
    assert_eq!(truncate_double(9223372036854775808.0_f64.to_bits()), i64::MAX);
    assert_eq!(truncate_double((-9223372036854775808.0_f64).to_bits()), i64::MIN);
    assert_eq!(truncate_double(9223372036854774784.0_f64.to_bits()), 9223372036854774784);
    assert_eq!(truncate_double((-9223372036854774784.0_f64).to_bits()), -9223372036854774784);
}

#[test]
fn truncate_double_reads_no_number_as_zero() {
    assert_eq!(truncate_double(f64::NAN.to_bits()), 0);
    assert_eq!(truncate_double(0x7ff0_0000_0000_0001), 0);
    assert_eq!(truncate_double(0xfff8_0000_0000_0000), 0);
}

#[test]
fn truncate_double_of_tiny_numbers_is_zero() {
    assert_eq!(truncate_double(f64::MIN_POSITIVE.to_bits()), 0);
    assert_eq!(truncate_double(1), 0);
    assert_eq!(truncate_double(0x8000_0000_0000_0001), 0);
    assert_eq!(truncate_double(0x000f_ffff_ffff_ffff), 0);
}

#[test]
fn truncate_double_agrees_with_the_machine() {
    let mut bits: u64 = 0x0123_4567_89ab_cdef;
    let mut seen = 0;
    while seen < 20000 {
        bits = bits.wrapping_mul(6364136223846793005).wrapping_add(1442695040888963407);
        let probe = bits ^ (bits >> 29);
        assert_eq!(truncate_double(probe), f64::from_bits(probe) as i64);
        seen += 1;
    }
    let mut exponent: u64 = 1000;
    while exponent < 1100 {
        for fraction in [0_u64, 1, 0x8_0000_0000_0000, 0xf_ffff_ffff_ffff] {
            for sign in [0_u64, 1] {
                let probe = (sign << 63) | (exponent << 52) | fraction;
                assert_eq!(truncate_double(probe), f64::from_bits(probe) as i64);
            }
        }
        exponent += 1;
    }
}

fn serve(
    req: &SearchRequest,
    lookups: &mut Vec<String>,
    upstream: Option<Vec<CommunityEntry>>,
    content: Result<(Vec<String>, String), String>,
) -> Result<SearchView<String, ()>, String> {
    let p = plan(req);
    let suggestions = match &p.suggestion_target {
        Some(target) => {
            lookups.push(target.clone());
            upstream
        }
        None => None,
    };
    assemble(p, content, suggestions, ())
}

#[test]
fn restricted_search_makes_no_community_lookup() {
    let mut lookups = Vec::new();
    let upstream = Some(vec![entry(Some("r/dogs"), None, None, Some(3.0))]);
    let view = serve(
        &request("/r/dogs/search", "q=dogs&restrict_sr=dogs", "dogs", ""),
        &mut lookups,
        upstream,
        Ok((posts(&["p"]), String::new())),
    )
    .unwrap();
    assert_eq!(lookups.len(), 0);
    assert!(view.subreddits.is_empty());
}

#[test]
fn unrestricted_search_makes_one_community_lookup() {
    let mut lookups = Vec::new();
    let upstream = Some(vec![entry(Some("r/dogs"), Some("/r/dogs/"), Some("Dogs."), Some(3.5))]);
    let view = serve(
        &request("/search", "q=good dogs", "", ""),
        &mut lookups,
        upstream,
        Ok((posts(&["p"]), String::new())),
    )
    .unwrap();
    assert_eq!(lookups, vec!["/subreddits/search.json?q=good+dogs&limit=3".to_string()]);
    assert_eq!(view.subreddits.len(), 1);
    assert_eq!(view.subreddits[0].url, "/r/dogs/");
    assert_eq!(view.subreddits[0].description, "Dogs.");
    assert_eq!(view.subreddits[0].subscribers, 3);
}

#[test]
fn adult_flag_does_not_disturb_the_parameters() {
    let (plain, _) = extract("/search", "q=cats&sort=hot&t=day&after=a1&restrict_sr=x", false);
    let (flagged, target) = extract("/search", "q=cats&sort=hot&t=day&after=a1&restrict_sr=x", true);
    assert!(target.ends_with("&include_over_18=on"));
    assert_eq!(plain.q, flagged.q);
    assert_eq!(plain.sort, flagged.sort);
    assert_eq!(plain.t, flagged.t);
    assert_eq!(plain.after, flagged.after);
    assert_eq!(plain.restrict_sr, flagged.restrict_sr);
    assert_eq!(param(&target, "include_over_18"), "on");
}
