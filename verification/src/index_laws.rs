//! What holds of every index, search and ranking.
use crate::apps::App;
use crate::index::{
    indexed, is_top, lists_favourites, matching, name_matches, named_before, names_of, ranks_before,
    rankings_in, reranked, selected, sorted_by_rank, sorts_from, stably_sorted, AppIndex,
};
use crate::text::{
    begins_with, law_string_order_is_transitive, law_strings_are_ordered, occurs_at, occurs_in,
    sorts_before,
};
use crate::text_laws::{differs_first_at, law_begins_with, law_first_difference_decides};
use vstd::prelude::*;
use vstd::relations::{sorted_by, total_ordering};
use vstd::seq_lib::{lemma_sorted_unique, seq_to_set_is_finite};
use vstd::set_lib::{lemma_int_range, lemma_subset_equality, set_int_range};

verus! {

/// A search finds exactly the apps whose names answer to the query.
pub proof fn law_search_finds_the_matching_apps(index: &AppIndex, query: Seq<char>, app: App)
    requires
        index.wf(),
    ensures
        matching(index.by_name.entries(), query).contains(app) <==> exists|name: Seq<char>| #[trigger]
            index@.contains_key(name) && index@[name] == app && name_matches(name, query),
{
    let entries = index.by_name.entries();
    let found = matching(entries, query);
    if found.contains(app) {
        let select = |entry: (String, App)| selected(entry, query);
        entries.lemma_filter_map_contains(select, app);
        let entry = choose|entry: (String, App)| #[trigger]
            entries.contains(entry) && select(entry) == Some(app);
        let i = entries.index_of(entry);
        index.by_name.lemma_entry(i);
        assert(index@.contains_key(entry.0@));
    }
    if exists|name: Seq<char>| #[trigger]
        index@.contains_key(name) && index@[name] == app && name_matches(name, query) {
        let name = choose|name: Seq<char>| #[trigger]
            index@.contains_key(name) && index@[name] == app && name_matches(name, query);
        let i = index.by_name.lemma_key(name);
        lemma_matching_keeps(entries, query, i);
    }
}

/// An entry whose name answers is among the matching ones.
proof fn lemma_matching_keeps(entries: Seq<(String, App)>, query: Seq<char>, i: int)
    requires
        0 <= i < entries.len(),
        name_matches(entries[i].0@, query),
    ensures
        matching(entries, query).contains(entries[i].1),
    decreases entries.len(),
{
    let rest = entries.drop_last();
    let found = matching(entries, query);
    if i == entries.len() - 1 {
        assert(found.last() == entries[i].1);
    } else {
        lemma_matching_keeps(rest, query, i);
        let j = matching(rest, query).index_of(entries[i].1);
        assert(found[j] == entries[i].1);
    }
}

/// The empty query finds every app.
pub proof fn law_empty_query_finds_all(index: &AppIndex)
    ensures
        matching(index.by_name.entries(), Seq::empty()) == index.apps(),
{
    lemma_empty_query(index.by_name.entries());
}

proof fn lemma_empty_query(entries: Seq<(String, App)>)
    ensures
        matching(entries, Seq::empty()) == entries.map_values(|entry: (String, App)| entry.1),
    decreases entries.len(),
{
    let all = entries.map_values(|entry: (String, App)| entry.1);
    if entries.len() == 0 {
        assert(all =~= Seq::<App>::empty());
    } else {
        let name = entries.last().0@;
        assert(name.take(0) =~= Seq::<char>::empty());
        lemma_empty_query(entries.drop_last());
        assert(all =~= entries.drop_last().map_values(|entry: (String, App)| entry.1).push(
            entries.last().1,
        ));
    }
}

/// A name that answers to a query answers to all that the query begins with:
/// typing on never finds a name that was not found before.
pub proof fn law_longer_query_finds_less(name: Seq<char>, query: Seq<char>, more: Seq<char>)
    requires
        name_matches(name, query + more),
    ensures
        name_matches(name, query),
{
    if begins_with(name, query + more) {
        lemma_prefix_of_prefix(name, query, more);
    } else if occurs_in(name, " "@ + (query + more)) {
        lemma_occurs_shorter(name, " "@, query, more);
    } else {
        lemma_occurs_shorter(name, "-"@, query, more);
    }
}

proof fn lemma_prefix_of_prefix(s: Seq<char>, query: Seq<char>, more: Seq<char>)
    requires
        begins_with(s, query + more),
    ensures
        begins_with(s, query),
{
    assert(s.take(query.len() as int) =~= (query + more).take(query.len() as int));
    assert((query + more).take(query.len() as int) =~= query);
}

proof fn lemma_occurs_shorter(s: Seq<char>, mark: Seq<char>, query: Seq<char>, more: Seq<char>)
    requires
        occurs_in(s, mark + (query + more)),
    ensures
        occurs_in(s, mark + query),
{
    let at = choose|at: int| #[trigger] occurs_at(s, mark + (query + more), at);
    assert(mark + (query + more) =~= (mark + query) + more);
    lemma_prefix_of_prefix(s.skip(at), mark + query, more);
    assert(occurs_at(s, mark + query, at));
}

/// Of several apps with one search name the index holds the last, and it holds
/// no name that no app has.
pub proof fn law_last_app_of_a_name_stays(apps: Seq<App>, name: Seq<char>)
    ensures
        indexed(apps).contains_key(name) <==> exists|i: int|
            0 <= i < apps.len() && (#[trigger] apps[i]).search_name@ == name,
        forall|i: int|
            0 <= i < apps.len() && (#[trigger] apps[i]).search_name@ == name && (forall|j: int|
                i < j < apps.len() ==> (#[trigger] apps[j]).search_name@ != name)
                ==> indexed(apps)[name] == apps[i],
    decreases apps.len(),
{
    if apps.len() > 0 {
        let rest = apps.drop_last();
        law_last_app_of_a_name_stays(rest, name);
        if indexed(rest).contains_key(name) {
            let i = choose|i: int| 0 <= i < rest.len() && (#[trigger] rest[i]).search_name@ == name;
            assert(apps[i].search_name@ == name);
        }
        assert(apps[apps.len() - 1] == apps.last());
        assert forall|i: int|
            0 <= i < apps.len() && (#[trigger] apps[i]).search_name@ == name && (forall|j: int|
                i < j < apps.len() ==> (#[trigger] apps[j]).search_name@
                    != name) implies indexed(apps)[name] == apps[i] by {
            if i < rest.len() {
                assert(apps.last().search_name@ != name);
                assert(rest[i] == apps[i]);
                assert forall|j: int| i < j < rest.len() implies (#[trigger] rest[j]).search_name@
                    != name by {
                    assert(apps[j] == rest[j]);
                }
            }
        }
        if exists|i: int| 0 <= i < apps.len() && (#[trigger] apps[i]).search_name@ == name {
            let i = choose|i: int| 0 <= i < apps.len() && (#[trigger] apps[i]).search_name@ == name;
            if i < rest.len() {
                assert(rest[i] == apps[i]);
            }
        }
    }
}

/// A ranking that was set is the one that is read back, if it is a ranking of
/// use; any other takes the app out of the rankings.
pub proof fn law_set_ranking_is_read_back(
    index: Map<Seq<char>, App>,
    name: Seq<char>,
    rank: i32,
)
    requires
        index.contains_key(name),
    ensures
        rankings_in(reranked(index, name, rank as int)) == if rank > 0 {
            rankings_in(index).insert(name, rank)
        } else {
            rankings_in(index).remove(name)
        },
{
    let after = rankings_in(reranked(index, name, rank as int));
    if rank > 0 {
        assert(after =~= rankings_in(index).insert(name, rank));
    } else {
        assert(after =~= rankings_in(index).remove(name));
    }
}

/// To rank a name that the index does not hold changes nothing.
pub proof fn law_unknown_name_changes_nothing(
    index: Map<Seq<char>, App>,
    name: Seq<char>,
    ranking: int,
)
    requires
        !index.contains_key(name),
    ensures
        reranked(index, name, ranking) == index,
{
}

/// A ranking changes one app, and of that app nothing else.
pub proof fn law_ranking_touches_one_app(
    index: Map<Seq<char>, App>,
    name: Seq<char>,
    ranking: i32,
    other: Seq<char>,
)
    requires
        index.contains_key(other),
    ensures
        reranked(index, name, ranking as int).dom() == index.dom(),
        reranked(index, name, ranking as int)[other] == if other == name {
            App { ranking, ..index[other] }
        } else {
            index[other]
        },
{
    assert(reranked(index, name, ranking as int).dom() =~= index.dom());
}

/// Between two apps the order of use decides, or they have the same ranking and
/// the same name; and the order is transitive.
pub proof fn law_rank_is_an_order(a: App, b: App, c: App)
    ensures
        !(ranks_before(a, b) && ranks_before(b, a)),
        ranks_before(a, b) || ranks_before(b, a) || (a.ranking == b.ranking && a.display_name@
            == b.display_name@),
        ranks_before(a, b) && ranks_before(b, c) ==> ranks_before(a, c),
{
    law_strings_are_ordered(a.display_name@, b.display_name@);
    if sorts_before(a.display_name@, b.display_name@) && sorts_before(
        b.display_name@,
        c.display_name@,
    ) {
        law_string_order_is_transitive(a.display_name@, b.display_name@, c.display_name@);
    }
}

/// The list of the most used apps is as long as the limit and the number of
/// used apps allow.
pub proof fn law_top_has_the_length(apps: Seq<App>, limit: nat, top: Seq<App>)
    requires
        is_top(apps, limit as int, top),
    ensures
        top.len() <= limit,
        top.len() <= apps.filter(|app: App| app.ranking > 0).len(),
        top.len() == limit || top.len() == apps.filter(|app: App| app.ranking > 0).len(),
{
}

/// The list of the most used apps is in order: none comes behind one that it
/// ranks before.
pub proof fn law_top_is_in_order(apps: Seq<App>, limit: nat, top: Seq<App>, i: int, j: int)
    requires
        is_top(apps, limit as int, top),
        0 <= i < j < top.len(),
    ensures
        !ranks_before(top[j], top[i]),
{
    let (sorted, from) = lemma_top_source(apps, limit, top);
    assert(top[i] == sorted[i] && top[j] == sorted[j]);
}

/// The list of the most used apps holds used apps of the index only: no
/// favourite stands in it.
pub proof fn law_top_is_used(apps: Seq<App>, limit: nat, top: Seq<App>, i: int)
    requires
        is_top(apps, limit as int, top),
        0 <= i < top.len(),
    ensures
        apps.contains(top[i]),
        top[i].ranking > 0,
{
    let keep = |app: App| app.ranking > 0;
    let used = apps.filter(keep);
    let (sorted, from) = lemma_top_source(apps, limit, top);
    assert(top[i] == sorted[i]);
    assert(0 <= from[i] < used.len() && sorted[i] == used[from[i]]);
    apps.lemma_filter_pred(keep, from[i]);
    assert(used.contains(used[from[i]]));
    apps.lemma_filter_contains_rev(keep, used[from[i]]);
}

/// No used app that the list leaves out ranks before one that it holds.
pub proof fn law_top_leaves_out_no_better(
    apps: Seq<App>,
    limit: nat,
    top: Seq<App>,
    app: App,
    i: int,
)
    requires
        is_top(apps, limit as int, top),
        apps.contains(app),
        app.ranking > 0,
        !top.contains(app),
        0 <= i < top.len(),
    ensures
        !ranks_before(app, top[i]),
{
    let keep = |app: App| app.ranking > 0;
    let used = apps.filter(keep);
    let (sorted, from) = lemma_top_source(apps, limit, top);
    apps.lemma_filter_contains(keep, apps.index_of(app));
    used.to_multiset_ensures();
    sorted.to_multiset_ensures();
    assert(sorted.to_multiset().count(app) > 0);
    let j = sorted.index_of(app);
    if j < top.len() {
        assert(top[j] == app);
    }
    assert(top[i] == sorted[i]);
    assert(sorted[j] == app);
}

/// The sorted list that a list of the most used apps is the beginning of.
proof fn lemma_top_source(apps: Seq<App>, limit: nat, top: Seq<App>) -> (source: (
    Seq<App>,
    Seq<int>,
))
    requires
        is_top(apps, limit as int, top),
    ensures
        ({
            let used = apps.filter(|app: App| app.ranking > 0);
            let (sorted, from) = source;
            &&& sorted_by_rank(used, sorted)
            &&& sorts_from(
                used,
                sorted,
                from,
                |left: App, right: App| ranks_before(left, right),
            )
            &&& top.len() <= sorted.len()
            &&& top == sorted.take(top.len() as int)
        }),
{
    let used = apps.filter(|app: App| app.ranking > 0);
    let order = |left: App, right: App| ranks_before(left, right);
    let sorted = choose|sorted: Seq<App>|
        #[trigger] sorted_by_rank(used, sorted) && top == sorted.take(
            if limit < used.len() {
                limit as int
            } else {
                used.len() as int
            },
        );
    let from = choose|from: Seq<int>| sorts_from(used, sorted, from, order);
    (sorted, from)
}

/// The favourites are the apps of the index with the ranking -1, all of them,
/// in the order of their names.
pub proof fn law_favourites(apps: Seq<App>, favourites: Seq<App>, app: App)
    requires
        lists_favourites(apps, favourites),
    ensures
        favourites.contains(app) <==> apps.contains(app) && app.ranking == -1,
        forall|i: int, j: int|
            0 <= i < j < favourites.len() ==> !named_before(
                #[trigger] favourites[j],
                #[trigger] favourites[i],
            ),
{
    let keep = |app: App| app.ranking == -1;
    let chosen = apps.filter(keep);
    let order = |left: App, right: App| named_before(left, right);
    chosen.to_multiset_ensures();
    favourites.to_multiset_ensures();
    assert(favourites.contains(app) <==> favourites.to_multiset().count(app) > 0);
    assert(chosen.contains(app) <==> chosen.to_multiset().count(app) > 0);
    if chosen.contains(app) {
        apps.lemma_filter_contains_rev(keep, app);
        apps.lemma_filter_pred(keep, chosen.index_of(app));
    }
    if apps.contains(app) && app.ranking == -1 {
        apps.lemma_filter_contains(keep, apps.index_of(app));
    }
    let from = choose|from: Seq<int>| sorts_from(chosen, favourites, from, order);
    assert forall|i: int, j: int| 0 <= i < j < favourites.len() implies !named_before(
        #[trigger] favourites[j],
        #[trigger] favourites[i],
    ) by {
        assert(!order(favourites[j], favourites[i]));
    }
}

/// `precedes` is a strict order, and apps that it does not tell apart stand alike
/// to every other app.
spec fn is_weak_order(precedes: spec_fn(App, App) -> bool) -> bool {
    &&& forall|a: App, b: App| #[trigger] precedes(a, b) ==> !precedes(b, a)
    &&& forall|a: App, b: App, c: App| #[trigger]
        precedes(a, b) && #[trigger] precedes(b, c) ==> precedes(a, c)
    &&& forall|a: App, b: App, c: App|
        !(#[trigger] precedes(a, b)) && !(#[trigger] precedes(b, c)) ==> !precedes(a, c)
}

/// Position `p` of `apps` is not behind position `q` in the order `precedes`;
/// positions beside the list stand behind all others.
spec fn not_behind(apps: Seq<App>, precedes: spec_fn(App, App) -> bool, p: int, q: int) -> bool {
    let inside_p = 0 <= p < apps.len();
    let inside_q = 0 <= q < apps.len();
    if inside_p && inside_q {
        ||| p == q
        ||| precedes(apps[p], apps[q])
        ||| !precedes(apps[q], apps[p]) && p < q
    } else if inside_p || inside_q {
        inside_p
    } else {
        p <= q
    }
}

/// The positions of a list are totally ordered by where a stable sort puts them.
proof fn lemma_positions_are_ordered(apps: Seq<App>, precedes: spec_fn(App, App) -> bool)
    requires
        is_weak_order(precedes),
    ensures
        total_ordering(|p: int, q: int| not_behind(apps, precedes, p, q)),
{
    let leq = |p: int, q: int| not_behind(apps, precedes, p, q);
    assert forall|p: int, q: int, r: int| #[trigger] leq(p, q) && #[trigger] leq(q, r) implies leq(
        p,
        r,
    ) by {
    }
}

/// A list of all positions, each once, holds the positions that any other such
/// list holds.
proof fn lemma_positions_are_all_there(a: Seq<int>, b: Seq<int>)
    requires
        a.len() == b.len(),
        a.no_duplicates(),
        b.no_duplicates(),
        forall|i: int| 0 <= i < a.len() ==> 0 <= #[trigger] a[i] < a.len(),
        forall|i: int| 0 <= i < b.len() ==> 0 <= #[trigger] b[i] < b.len(),
    ensures
        a.to_multiset() == b.to_multiset(),
{
    let all = set_int_range(0, a.len() as int);
    lemma_int_range(0, a.len() as int);
    a.unique_seq_to_set();
    b.unique_seq_to_set();
    seq_to_set_is_finite(a);
    seq_to_set_is_finite(b);
    lemma_subset_equality(a.to_set(), all);
    lemma_subset_equality(b.to_set(), all);
    a.lemma_multiset_has_no_duplicates();
    b.lemma_multiset_has_no_duplicates();
    a.to_multiset_ensures();
    b.to_multiset_ensures();
    assert forall|p: int| #[trigger] a.to_multiset().count(p) == b.to_multiset().count(p) by {
        assert(a.contains(p) <==> all.contains(p));
        assert(b.contains(p) <==> all.contains(p));
    }
    assert(a.to_multiset() =~= b.to_multiset());
}

/// There is one way to sort a list stably.
proof fn lemma_stable_sort_is_unique(
    before: Seq<App>,
    a: Seq<App>,
    b: Seq<App>,
    precedes: spec_fn(App, App) -> bool,
)
    requires
        is_weak_order(precedes),
        stably_sorted(before, a, precedes),
        stably_sorted(before, b, precedes),
    ensures
        a == b,
{
    let from_a = choose|from: Seq<int>| sorts_from(before, a, from, precedes);
    let from_b = choose|from: Seq<int>| sorts_from(before, b, from, precedes);
    let leq = |p: int, q: int| not_behind(before, precedes, p, q);
    lemma_positions_are_ordered(before, precedes);
    lemma_positions_are_all_there(from_a, from_b);
    lemma_sorted_positions(before, a, from_a, precedes);
    lemma_sorted_positions(before, b, from_b, precedes);
    lemma_sorted_unique(from_a, from_b, leq);
    assert forall|i: int| 0 <= i < a.len() implies a[i] == b[i] by {
        assert(a[i] == before[from_a[i]]);
        assert(b[i] == before[from_b[i]]);
    }
    assert(a =~= b);
}

/// A stable sort takes the positions in order.
proof fn lemma_sorted_positions(
    before: Seq<App>,
    after: Seq<App>,
    from: Seq<int>,
    precedes: spec_fn(App, App) -> bool,
)
    requires
        sorts_from(before, after, from, precedes),
    ensures
        sorted_by(from, |p: int, q: int| not_behind(before, precedes, p, q)),
{
    let leq = |p: int, q: int| not_behind(before, precedes, p, q);
    assert forall|i: int, j: int| 0 <= i < j < from.len() implies #[trigger] leq(
        from[i],
        from[j],
    ) by {
        assert(after[i] == before[from[i]]);
        assert(after[j] == before[from[j]]);
    }
}

/// There is one list of the most used apps.
pub proof fn law_top_is_determined(apps: Seq<App>, limit: nat, a: Seq<App>, b: Seq<App>)
    requires
        is_top(apps, limit as int, a),
        is_top(apps, limit as int, b),
    ensures
        a == b,
{
    let used = apps.filter(|app: App| app.ranking > 0);
    let order = |left: App, right: App| ranks_before(left, right);
    let (sorted_a, from_a) = lemma_top_source(apps, limit, a);
    let (sorted_b, from_b) = lemma_top_source(apps, limit, b);
    assert forall|x: App, y: App| #[trigger] order(x, y) implies !order(y, x) by {
        law_rank_is_an_order(x, y, x);
    }
    assert forall|x: App, y: App, z: App| #[trigger] order(x, y) && #[trigger] order(
        y,
        z,
    ) implies order(x, z) by {
        law_rank_is_an_order(x, y, z);
    }
    assert forall|x: App, y: App, z: App|
        !(#[trigger] order(x, y)) && !(#[trigger] order(y, z)) implies !order(x, z) by {
        law_rank_is_an_order(z, y, x);
        law_rank_is_an_order(x, y, z);
        law_rank_is_an_order(y, z, x);
    }
    lemma_stable_sort_is_unique(used, sorted_a, sorted_b, order);
}

/// There is one list of the favourites.
pub proof fn law_favourites_are_determined(apps: Seq<App>, a: Seq<App>, b: Seq<App>)
    requires
        lists_favourites(apps, a),
        lists_favourites(apps, b),
    ensures
        a == b,
{
    let chosen = apps.filter(|app: App| app.ranking == -1);
    let order = |left: App, right: App| named_before(left, right);
    assert forall|x: App, y: App| #[trigger] order(x, y) implies !order(y, x) by {
        law_strings_are_ordered(x.display_name@, y.display_name@);
    }
    assert forall|x: App, y: App, z: App| #[trigger] order(x, y) && #[trigger] order(
        y,
        z,
    ) implies order(x, z) by {
        law_string_order_is_transitive(x.display_name@, y.display_name@, z.display_name@);
    }
    assert forall|x: App, y: App, z: App|
        !(#[trigger] order(x, y)) && !(#[trigger] order(y, z)) implies !order(x, z) by {
        law_strings_are_ordered(x.display_name@, y.display_name@);
        law_strings_are_ordered(y.display_name@, z.display_name@);
        law_strings_are_ordered(x.display_name@, z.display_name@);
        if order(z, y) && order(y, x) {
            law_string_order_is_transitive(z.display_name@, y.display_name@, x.display_name@);
        }
    }
    lemma_stable_sort_is_unique(chosen, a, b, order);
}

/// `query` is spelled out in `name` from place `at` on.
pub open spec fn spelled_at(name: Seq<char>, query: Seq<char>, at: int) -> bool {
    &&& 0 <= at
    &&& at + query.len() <= name.len()
    &&& forall|k: int| 0 <= k < query.len() ==> name[at + k] == #[trigger] query[k]
}

/// A word of `name` can begin at place `at`: the name begins there, or a space or
/// a hyphen stands before it.
pub open spec fn word_can_begin(name: Seq<char>, at: int) -> bool {
    at == 0 || name[at - 1] == ' ' || name[at - 1] == '-'
}

/// The query is spelled out at a place of the name where a word can begin.
pub open spec fn word_spelled(name: Seq<char>, query: Seq<char>) -> bool {
    exists|at: int| #[trigger] spelled_at(name, query, at) && word_can_begin(name, at)
}

/// A name answers to a query of any length exactly if the query is spelled out
/// in it, all of it, from a place on where a word can begin.
pub proof fn law_names_answer_by_words(name: Seq<char>, query: Seq<char>)
    ensures
        name_matches(name, query) <==> word_spelled(name, query),
{
    reveal_strlit(" ");
    reveal_strlit("-");
    let none = Seq::<char>::empty();
    law_begins_with(name, query, none);
    if begins_with(name, query) {
        assert(spelled_at(name, query, 0));
    }
    if occurs_in(name, " "@ + query) {
        lemma_marked_word(name, " "@, query);
    }
    if occurs_in(name, "-"@ + query) {
        lemma_marked_word(name, "-"@, query);
    }
    if word_spelled(name, query) {
        let at = choose|at: int| #[trigger] spelled_at(name, query, at) && word_can_begin(name, at);
        if at == 0 {
            assert forall|i: int| 0 <= i < query.len() implies name[i] == #[trigger] query[i] by {
                assert(name[at + i] == query[i]);
            }
        } else {
            let mark = if name[at - 1] == ' ' {
                " "@
            } else {
                "-"@
            };
            let rest = name.skip(at - 1);
            assert(rest.take(1 + query.len() as int) =~= mark + query);
            assert(occurs_at(name, mark + query, at - 1));
        }
    }
}

/// Behind a mark of one character that stands before the query, the query is
/// spelled out.
proof fn lemma_marked_word(name: Seq<char>, mark: Seq<char>, query: Seq<char>)
    requires
        mark.len() == 1,
        mark[0] == ' ' || mark[0] == '-',
        occurs_in(name, mark + query),
    ensures
        word_spelled(name, query),
{
    let at = choose|at: int| #[trigger] occurs_at(name, mark + query, at);
    let rest = name.skip(at);
    let wanted = mark + query;
    law_begins_with(rest, wanted, Seq::empty());
    assert(rest[0] == wanted[0]);
    assert forall|k: int| 0 <= k < query.len() implies name[at + 1 + k] == #[trigger] query[k] by {
        assert(rest[k + 1] == wanted[k + 1]);
    }
    assert(spelled_at(name, query, at + 1));
}

/// Whatever stands around it, a query is found at the beginning of a name, behind
/// a space and behind a hyphen.
pub proof fn law_query_is_found_at_words(a: Seq<char>, query: Seq<char>, b: Seq<char>)
    ensures
        name_matches(query + b, query),
        name_matches(a + seq![' '] + query + b, query),
        name_matches(a + seq!['-'] + query + b, query),
{
    law_begins_with(query + b, query, b);
    lemma_word_behind(a, ' ', query, b);
    lemma_word_behind(a, '-', query, b);
}

/// `name` is `query` with `a` before it and `b` behind it, and `a` is nothing or
/// ends with a space or a hyphen.
pub open spec fn has_word(name: Seq<char>, a: Seq<char>, query: Seq<char>, b: Seq<char>) -> bool {
    &&& name =~= a + query + b
    &&& a.len() == 0 || a.last() == ' ' || a.last() == '-'
}

/// A name that is found has the query at its beginning, behind a space or behind
/// a hyphen.
pub proof fn law_found_names_have_the_query(name: Seq<char>, query: Seq<char>)
    requires
        name_matches(name, query),
    ensures
        exists|a: Seq<char>, b: Seq<char>| #[trigger] has_word(name, a, query, b),
{
    law_names_answer_by_words(name, query);
    let at = choose|at: int| #[trigger] spelled_at(name, query, at) && word_can_begin(name, at);
    let a = name.take(at);
    let b = name.skip(at + query.len());
    let whole = a + query + b;
    assert forall|i: int| 0 <= i < name.len() implies name[i] == #[trigger] whole[i] by {
        if at <= i < at + query.len() {
            assert(name[at + (i - at)] == query[i - at]);
        }
    }
    assert(has_word(name, a, query, b));
}

proof fn lemma_word_behind(a: Seq<char>, mark: char, query: Seq<char>, b: Seq<char>)
    requires
        mark == ' ' || mark == '-',
    ensures
        name_matches(a + seq![mark] + query + b, query),
{
    let name = a + seq![mark] + query + b;
    let at = a.len() as int + 1;
    assert(name[at - 1] == mark);
    assert(spelled_at(name, query, at));
    law_names_answer_by_words(name, query);
}

/// `found` holds the apps of those entries in whose names a word spells the
/// query: `at` are the places of these entries, in order and without a gap.
pub open spec fn finds_from(
    entries: Seq<(String, App)>,
    query: Seq<char>,
    found: Seq<App>,
    at: Seq<int>,
) -> bool {
    &&& at.len() == found.len()
    &&& forall|i: int|
        #![trigger at[i]]
        0 <= i < at.len() ==> 0 <= at[i] < entries.len() && found[i] == entries[at[i]].1
            && word_spelled(entries[at[i]].0@, query)
    &&& forall|i: int, j: int| 0 <= i < j < at.len() ==> #[trigger] at[i] < #[trigger] at[j]
    &&& forall|p: int|
        #![trigger entries[p]]
        0 <= p < entries.len() && word_spelled(entries[p].0@, query) ==> at.contains(p)
}

/// A search gives, in the order of the index, the app of every entry in whose
/// name a word spells the query, once, and nothing else.
pub proof fn law_search_gives_each_answer_once(
    entries: Seq<(String, App)>,
    query: Seq<char>,
)
    ensures
        exists|at: Seq<int>| #[trigger] finds_from(entries, query, matching(entries, query), at),
    decreases entries.len(),
{
    let found = matching(entries, query);
    if entries.len() == 0 {
        assert(finds_from(entries, query, found, Seq::empty()));
    } else {
        let rest = entries.drop_last();
        let last = entries.len() - 1;
        let before = matching(rest, query);
        law_search_gives_each_answer_once(rest, query);
        law_names_answer_by_words(entries.last().0@, query);
        let at = choose|at: Seq<int>| #[trigger] finds_from(rest, query, before, at);
        let now = if word_spelled(entries.last().0@, query) {
            at.push(last)
        } else {
            at
        };
        assert(found == if word_spelled(entries.last().0@, query) {
            before.push(entries.last().1)
        } else {
            before
        });
        assert forall|i: int| #![trigger now[i]] 0 <= i < now.len() implies 0 <= now[i]
            < entries.len() && found[i] == entries[now[i]].1 && word_spelled(
            entries[now[i]].0@,
            query,
        ) by {
            if i < at.len() {
                assert(at[i] == now[i]);
                assert(entries[at[i]] == rest[at[i]]);
            }
        }
        assert forall|p: int|
            #![trigger entries[p]]
            0 <= p < entries.len() && word_spelled(entries[p].0@, query) implies now.contains(
            p,
        ) by {
            if p < last {
                assert(rest[p] == entries[p]);
                let i = at.index_of(p);
                assert(now[i] == p);
            } else {
                assert(now[at.len() as int] == p);
            }
        }
        assert(finds_from(entries, query, found, now));
    }
}

/// The apps of an index are those of its entries, one for one, and the index
/// holds what its map holds.
pub proof fn law_apps_are_those_of_the_entries(index: &AppIndex, i: int)
    ensures
        index@ == index.by_name@,
        index.apps().len() == index.by_name.entries().len(),
        0 <= i < index.apps().len() ==> index.apps()[i] == index.by_name.entries()[i].1,
{
}

/// The rankings hold the ranking of every app of the index that was used, and of
/// no other.
pub proof fn law_rankings_are_those_of_used_apps(index: Map<Seq<char>, App>, name: Seq<char>)
    ensures
        rankings_in(index).contains_key(name) <==> index.contains_key(name)
            && index[name].ranking > 0,
        rankings_in(index).contains_key(name) ==> rankings_in(index)[name]
            == index[name].ranking,
{
}

/// The names of an index are the search names of its apps, each once, in the
/// order in which they first stand.
pub proof fn law_names_stand_in_the_order_they_came(apps: Seq<App>)
    ensures
        exists|first: Seq<int>| #[trigger] first_places(apps, names_of(apps), first),
    decreases apps.len(),
{
    let names = names_of(apps);
    if apps.len() == 0 {
        assert(first_places(apps, names, Seq::empty()));
    } else {
        let rest = apps.drop_last();
        let last = apps.len() - 1;
        let before = names_of(rest);
        law_names_stand_in_the_order_they_came(rest);
        let first = choose|first: Seq<int>| #[trigger] first_places(rest, before, first);
        let known = before.contains(apps.last().search_name@);
        let now = if known {
            first
        } else {
            first.push(last)
        };
        assert forall|i: int| #![trigger now[i]] 0 <= i < now.len() implies 0 <= now[i] < apps.len()
            && names[i] == apps[now[i]].search_name@ && forall|p: int|
            #![trigger apps[p]]
            0 <= p < now[i] ==> apps[p].search_name@ != names[i] by {
            if i < first.len() {
                assert(first[i] == now[i]);
                assert(apps[first[i]] == rest[first[i]]);
                assert forall|p: int| #![trigger apps[p]] 0 <= p < now[i] implies apps[p].search_name@
                    != names[i] by {
                    assert(rest[p] == apps[p]);
                }
            } else {
                assert forall|p: int| #![trigger apps[p]] 0 <= p < now[i] implies apps[p].search_name@
                    != names[i] by {
                    assert(rest[p] == apps[p]);
                    assert(before.contains(rest[p].search_name@));
                }
            }
        }
        assert forall|p: int| #![trigger apps[p]] 0 <= p < apps.len() implies names.contains(
            apps[p].search_name@,
        ) by {
            if p < last {
                assert(rest[p] == apps[p]);
                let i = before.index_of(rest[p].search_name@);
                assert(names[i] == apps[p].search_name@);
            } else if known {
            } else {
                assert(names[before.len() as int] == apps[p].search_name@);
            }
        }
        assert(first_places(apps, names, now));
    }
}

/// `first[i]` is the first place in `apps` of the name `names[i]`; these places
/// are in order, and every name of an app is among the names.
pub open spec fn first_places(apps: Seq<App>, names: Seq<Seq<char>>, first: Seq<int>) -> bool {
    &&& first.len() == names.len()
    &&& forall|i: int|
        #![trigger first[i]]
        0 <= i < first.len() ==> 0 <= first[i] < apps.len() && names[i]
            == apps[first[i]].search_name@ && forall|p: int|
            #![trigger apps[p]]
            0 <= p < first[i] ==> apps[p].search_name@ != names[i]
    &&& forall|i: int, j: int| 0 <= i < j < first.len() ==> #[trigger] first[i] < #[trigger] first[j]
    &&& forall|p: int| #![trigger apps[p]] 0 <= p < apps.len() ==> names.contains(apps[p].search_name@)
}

/// `at` are the places of the apps that `keep` keeps, in order and without a gap,
/// and `kept` holds these apps.
spec fn keeps_from(
    apps: Seq<App>,
    keep: spec_fn(App) -> bool,
    kept: Seq<App>,
    at: Seq<int>,
) -> bool {
    &&& at.len() == kept.len()
    &&& forall|i: int|
        #![trigger at[i]]
        0 <= i < at.len() ==> 0 <= at[i] < apps.len() && kept[i] == apps[at[i]] && keep(
            apps[at[i]],
        )
    &&& forall|i: int, j: int| 0 <= i < j < at.len() ==> #[trigger] at[i] < #[trigger] at[j]
    &&& forall|p: int| #![trigger apps[p]] 0 <= p < apps.len() && keep(apps[p]) ==> at.contains(p)
}

/// The kept apps have such places.
proof fn lemma_kept_places(apps: Seq<App>, keep: spec_fn(App) -> bool) -> (at: Seq<int>)
    ensures
        keeps_from(apps, keep, apps.filter(keep), at),
    decreases apps.len(),
{
    if apps.len() == 0 {
        Seq::empty()
    } else {
        let rest = apps.drop_last();
        let last = apps.len() - 1;
        let before = lemma_kept_places(rest, keep);
        let now = if keep(apps.last()) {
            before.push(last)
        } else {
            before
        };
        let kept = apps.filter(keep);
        broadcast use Seq::lemma_filter_push;

        assert(rest.push(apps.last()) =~= apps);
        assert(kept == if keep(apps.last()) {
            rest.filter(keep).push(apps.last())
        } else {
            rest.filter(keep)
        });
        assert forall|i: int| #![trigger now[i]] 0 <= i < now.len() implies 0 <= now[i] < apps.len()
            && kept[i] == apps[now[i]] && keep(apps[now[i]]) by {
            if i < before.len() {
                assert(before[i] == now[i]);
                assert(apps[before[i]] == rest[before[i]]);
            }
        }
        assert forall|p: int|
            #![trigger apps[p]]
            0 <= p < apps.len() && keep(apps[p]) implies now.contains(p) by {
            if p < last {
                assert(rest[p] == apps[p]);
                let i = before.index_of(p);
                assert(now[i] == p);
            } else {
                assert(now[before.len() as int] == p);
            }
        }
        now
    }
}

/// A list of all positions, each once, holds every position.
proof fn lemma_no_position_is_missing(from: Seq<int>, m: int)
    requires
        from.no_duplicates(),
        forall|i: int| 0 <= i < from.len() ==> 0 <= #[trigger] from[i] < from.len(),
        0 <= m < from.len(),
    ensures
        from.contains(m),
{
    let all = set_int_range(0, from.len() as int);
    lemma_int_range(0, from.len() as int);
    from.unique_seq_to_set();
    seq_to_set_is_finite(from);
    lemma_subset_equality(from.to_set(), all);
    assert(all.contains(m));
    assert(from.to_set().contains(m));
}

/// The name of the app at place `p` is smaller than that of the app at place `q`
/// at the first character where they differ; or they are the same, and `p` comes
/// before `q`.
pub open spec fn name_comes_first(apps: Seq<App>, p: int, q: int) -> bool {
    ||| exists|k: int| #[trigger]
        differs_first_at(apps[p].display_name@, apps[q].display_name@, k)
    ||| apps[p].display_name@ == apps[q].display_name@ && p < q
}

/// The app at place `p` has the higher ranking; or the two have the same, and its
/// name comes first.
pub open spec fn use_comes_first(apps: Seq<App>, p: int, q: int) -> bool {
    ||| apps[p].ranking > apps[q].ranking
    ||| apps[p].ranking == apps[q].ranking && name_comes_first(apps, p, q)
}

/// `top` holds the apps at the places `from`: used apps, each once, the most used
/// first; and a used app is left out only if the list is full, and then it is
/// behind all that are listed.
pub open spec fn most_used_from(apps: Seq<App>, limit: nat, top: Seq<App>, from: Seq<int>) -> bool {
    &&& from.len() == top.len()
    &&& top.len() <= limit
    &&& forall|i: int|
        #![trigger from[i]]
        0 <= i < from.len() ==> 0 <= from[i] < apps.len() && top[i] == apps[from[i]]
            && apps[from[i]].ranking > 0
    &&& forall|i: int, j: int|
        #![trigger from[i], from[j]]
        0 <= i < j < from.len() ==> from[i] != from[j] && use_comes_first(apps, from[i], from[j])
    &&& forall|p: int|
        #![trigger apps[p]]
        0 <= p < apps.len() && apps[p].ranking > 0 && !from.contains(p) ==> top.len() == limit
            && forall|i: int| 0 <= i < from.len() ==> use_comes_first(apps, #[trigger] from[i], p)
}

/// The list of the most used apps holds, each once and in order, the used apps
/// with the highest rankings, and as many as the limit lets it.
pub proof fn law_top_is_the_most_used(apps: Seq<App>, limit: nat, top: Seq<App>)
    requires
        is_top(apps, limit as int, top),
    ensures
        exists|from: Seq<int>| #[trigger] most_used_from(apps, limit, top, from),
{
    let keep = |app: App| app.ranking > 0;
    let order = |left: App, right: App| ranks_before(left, right);
    let used = apps.filter(keep);
    let at = lemma_kept_places(apps, keep);
    let (sorted, place) = lemma_top_source(apps, limit, top);
    law_top_has_the_length(apps, limit, top);
    let from = Seq::new(top.len(), |i: int| at[place[i]]);
    assert forall|i: int| #![trigger from[i]] 0 <= i < from.len() implies 0 <= from[i] < apps.len()
        && top[i] == apps[from[i]] && apps[from[i]].ranking > 0 by {
        assert(sorted[i] == used[place[i]]);
        assert(from[i] == at[place[i]]);
        assert(keep(apps[at[place[i]]]));
    }
    assert forall|i: int, j: int|
        #![trigger from[i], from[j]]
        0 <= i < j < from.len() implies from[i] != from[j] && use_comes_first(
        apps,
        from[i],
        from[j],
    ) by {
        lemma_sorted_by_use(apps, used, at, sorted, place, i, j);
        assert(place[i] != place[j]);
    }
    assert forall|p: int|
        #![trigger apps[p]]
        0 <= p < apps.len() && apps[p].ranking > 0 && !from.contains(p) implies top.len() == limit
        && forall|i: int| 0 <= i < from.len() ==> use_comes_first(apps, #[trigger] from[i], p) by {
        assert(keep(apps[p]));
        let m = at.index_of(p);
        lemma_no_position_is_missing(place, m);
        let j = place.index_of(m);
        if j < top.len() {
            assert(from[j] == p);
        }
        assert forall|i: int| 0 <= i < from.len() implies use_comes_first(
            apps,
            #[trigger] from[i],
            p,
        ) by {
            lemma_sorted_by_use(apps, used, at, sorted, place, i, j);
        }
    }
    assert(most_used_from(apps, limit, top, from));
}

/// Of two apps in a list that is sorted by rank, the first comes first by use.
proof fn lemma_sorted_by_use(
    apps: Seq<App>,
    used: Seq<App>,
    at: Seq<int>,
    sorted: Seq<App>,
    place: Seq<int>,
    i: int,
    j: int,
)
    requires
        keeps_from(apps, |app: App| app.ranking > 0, used, at),
        sorts_from(used, sorted, place, |left: App, right: App| ranks_before(left, right)),
        0 <= i < j < sorted.len(),
    ensures
        use_comes_first(apps, at[place[i]], at[place[j]]),
{
    let order = |left: App, right: App| ranks_before(left, right);
    let (a, b) = (sorted[i], sorted[j]);
    assert(a == used[place[i]] && b == used[place[j]]);
    assert(a == apps[at[place[i]]] && b == apps[at[place[j]]]);
    assert(!order(b, a) && (order(a, b) || place[i] < place[j]));
    law_first_difference_decides(a.display_name@, b.display_name@);
    law_rank_is_an_order(a, b, a);
}

/// In a list of the most used apps the rankings never rise, and among apps with
/// one ranking the names never fall.
pub proof fn law_rankings_never_rise(apps: Seq<App>, limit: nat, top: Seq<App>, i: int, j: int)
    requires
        is_top(apps, limit as int, top),
        0 <= i < j < top.len(),
    ensures
        top[i].ranking >= top[j].ranking,
        top[i].ranking == top[j].ranking ==> !exists|k: int| #[trigger]
            differs_first_at(top[j].display_name@, top[i].display_name@, k),
{
    law_top_is_the_most_used(apps, limit, top);
    let from = choose|from: Seq<int>| #[trigger] most_used_from(apps, limit, top, from);
    assert(use_comes_first(apps, from[i], from[j]));
    let (a, b) = (top[i].display_name@, top[j].display_name@);
    law_first_difference_decides(a, b);
    law_first_difference_decides(b, a);
    law_strings_are_ordered(a, b);
}

/// A used app that the list of the most used apps leaves out has no higher
/// ranking than any that it holds, and is only left out of a full list.
pub proof fn law_left_out_apps_rank_no_higher(
    apps: Seq<App>,
    limit: nat,
    top: Seq<App>,
    app: App,
    i: int,
)
    requires
        is_top(apps, limit as int, top),
        apps.contains(app),
        app.ranking > 0,
        !top.contains(app),
    ensures
        top.len() == limit,
        0 <= i < top.len() ==> app.ranking <= top[i].ranking,
{
    law_top_is_the_most_used(apps, limit, top);
    let from = choose|from: Seq<int>| #[trigger] most_used_from(apps, limit, top, from);
    let p = apps.index_of(app);
    assert(apps[p] == app);
    if from.contains(p) {
        let m = from.index_of(p);
        assert(top[m] == apps[from[m]]);
    }
    if 0 <= i < top.len() {
        assert(use_comes_first(apps, from[i], p));
        assert(top[i] == apps[from[i]]);
    }
}

/// `favourites` holds the apps at the places `from`: all with the ranking -1,
/// each once, by name.
pub open spec fn favourites_from(apps: Seq<App>, favourites: Seq<App>, from: Seq<int>) -> bool {
    &&& from.len() == favourites.len()
    &&& forall|i: int|
        #![trigger from[i]]
        0 <= i < from.len() ==> 0 <= from[i] < apps.len() && favourites[i] == apps[from[i]]
            && apps[from[i]].ranking == -1
    &&& forall|i: int, j: int|
        #![trigger from[i], from[j]]
        0 <= i < j < from.len() ==> from[i] != from[j] && name_comes_first(apps, from[i], from[j])
    &&& forall|p: int|
        #![trigger apps[p]]
        0 <= p < apps.len() && apps[p].ranking == -1 ==> from.contains(p)
}

/// The favourites are all apps with the ranking -1, each once, in the order of
/// their names, and where the names are the same in the order of the index.
pub proof fn law_favourites_are_listed_by_name(apps: Seq<App>, favourites: Seq<App>)
    requires
        lists_favourites(apps, favourites),
    ensures
        exists|from: Seq<int>| #[trigger] favourites_from(apps, favourites, from),
{
    let keep = |app: App| app.ranking == -1;
    let order = |left: App, right: App| named_before(left, right);
    let chosen = apps.filter(keep);
    let at = lemma_kept_places(apps, keep);
    let place = choose|place: Seq<int>| sorts_from(chosen, favourites, place, order);
    let from = Seq::new(favourites.len(), |i: int| at[place[i]]);
    assert forall|i: int| #![trigger from[i]] 0 <= i < from.len() implies 0 <= from[i] < apps.len()
        && favourites[i] == apps[from[i]] && apps[from[i]].ranking == -1 by {
        assert(favourites[i] == chosen[place[i]]);
        assert(from[i] == at[place[i]]);
        assert(keep(apps[at[place[i]]]));
    }
    assert forall|i: int, j: int|
        #![trigger from[i], from[j]]
        0 <= i < j < from.len() implies from[i] != from[j] && name_comes_first(
        apps,
        from[i],
        from[j],
    ) by {
        let (a, b) = (favourites[i], favourites[j]);
        assert(a == apps[from[i]] && b == apps[from[j]]);
        assert(!order(b, a) && (order(a, b) || place[i] < place[j]));
        assert(place[i] != place[j]);
        law_first_difference_decides(a.display_name@, b.display_name@);
        law_strings_are_ordered(a.display_name@, b.display_name@);
    }
    assert forall|p: int|
        #![trigger apps[p]]
        0 <= p < apps.len() && apps[p].ranking == -1 implies from.contains(p) by {
        assert(keep(apps[p]));
        let m = at.index_of(p);
        lemma_no_position_is_missing(place, m);
        let j = place.index_of(m);
        assert(from[j] == p);
    }
    assert(favourites_from(apps, favourites, from));
}

} // verus!
