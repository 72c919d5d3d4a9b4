//! The index of all entries that a search goes through, and their ranking.
use crate::apps::App;
use crate::index_laws::{
    favourites_from, finds_from, law_favourites_are_listed_by_name,
    law_search_gives_each_answer_once, law_top_is_the_most_used, most_used_from,
};
use crate::string_map::StringMap;
use crate::text::{
    begins_with, contains, occurs_in, sorts_before, starts_with, text_place, Place,
};
use core::cmp::Ordering;
use rayon::iter::{IntoParallelRefIterator, ParallelIterator};
use rayon::slice::ParallelSliceMut;
use vstd::prelude::*;

verus! {

/// The name answers to the query: the name, or a word of it that stands behind
/// a space or a hyphen, begins with the query.
pub open spec fn name_matches(name: Seq<char>, query: Seq<char>) -> bool {
    ||| begins_with(name, query)
    ||| occurs_in(name, " "@ + query)
    ||| occurs_in(name, "-"@ + query)
}

/// The app of an entry whose name answers to the query.
pub open spec fn selected(entry: (String, App), query: Seq<char>) -> Option<App> {
    if name_matches(entry.0@, query) {
        Some(entry.1)
    } else {
        None
    }
}

/// The apps of all entries whose names answer to the query, in order.
pub open spec fn matching(entries: Seq<(String, App)>, query: Seq<char>) -> Seq<App> {
    entries.filter_map(|entry: (String, App)| selected(entry, query))
}

/// Whether a name answers to the query.
fn answers(name: &str, query: &str) -> (found: bool)
    ensures
        found == name_matches(name@, query@),
{
    starts_with(name, query) || contains(name, " ".to_owned().concat(query).as_str()) || contains(
        name,
        "-".to_owned().concat(query).as_str(),
    )
}

/// The app of an entry whose name answers to the query.
fn select<'a>(entry: &'a (String, App), query: &str) -> (app: Option<&'a App>)
    ensures
        match app {
            Some(a) => selected(*entry, query@) == Some(*a),
            None => selected(*entry, query@) is None,
        },
{
    if answers(entry.0.as_str(), query) {
        Some(&entry.1)
    } else {
        None
    }
}

/// Goes through the entries with rayon: `par_iter` hands every entry of the
/// list to `select`, `filter_map` keeps what `select` finds, and `collect` puts
/// it into a list in the order of the entries.
#[verifier::external_body]
fn par_select<'a>(entries: &'a Vec<(String, App)>, query: &'a str) -> (found: Vec<&'a App>)
    ensures
        found@.unref() == matching(entries@, query@),
{
    entries.par_iter().filter_map(|entry| select(entry, query)).collect()
}

/// `left` comes before `right` in a list of the most used apps: it was used
/// more often, or as often and its name sorts first.
pub open spec fn ranks_before(left: App, right: App) -> bool {
    ||| left.ranking > right.ranking
    ||| left.ranking == right.ranking && sorts_before(
        left.display_name@,
        right.display_name@,
    )
}

/// `left` comes before `right` in a list by name.
pub open spec fn named_before(left: App, right: App) -> bool {
    sorts_before(left.display_name@, right.display_name@)
}

/// `after` holds at position `i` what `before` held at `from[i]`; it is in the
/// order `precedes`, and of two apps that this order does not tell apart the one
/// that stood first stands first.
pub open spec fn sorts_from(
    before: Seq<App>,
    after: Seq<App>,
    from: Seq<int>,
    precedes: spec_fn(App, App) -> bool,
) -> bool {
    &&& from.len() == before.len()
    &&& after.len() == before.len()
    &&& from.no_duplicates()
    &&& forall|i: int|
        0 <= i < from.len() ==> 0 <= #[trigger] from[i] < before.len() && after[i]
            == before[from[i]]
    &&& forall|i: int, j: int|
        #![trigger after[i], after[j]]
        0 <= i < j < after.len() ==> !precedes(after[j], after[i]) && (precedes(after[i], after[j])
            || from[i] < from[j])
}

/// `after` is `before`, sorted stably by `precedes`.
pub open spec fn stably_sorted(
    before: Seq<App>,
    after: Seq<App>,
    precedes: spec_fn(App, App) -> bool,
) -> bool {
    &&& after.to_multiset() == before.to_multiset()
    &&& exists|from: Seq<int>| sorts_from(before, after, from, precedes)
}

/// `after` is `before`, sorted stably by rank.
pub open spec fn sorted_by_rank(before: Seq<App>, after: Seq<App>) -> bool {
    stably_sorted(before, after, |left: App, right: App| ranks_before(left, right))
}

/// `after` is `before`, sorted stably by name.
pub open spec fn sorted_by_name(before: Seq<App>, after: Seq<App>) -> bool {
    stably_sorted(before, after, |left: App, right: App| named_before(left, right))
}

/// The place of `left` in a list of the most used apps, as seen from `right`.
fn rank_order(left: &App, right: &App) -> (order: Ordering)
    ensures
        order == Ordering::Less <==> ranks_before(*left, *right),
        order == Ordering::Greater <==> ranks_before(*right, *left),
{
    if left.ranking > right.ranking {
        Ordering::Less
    } else if left.ranking < right.ranking {
        Ordering::Greater
    } else {
        name_order(left, right)
    }
}

/// The place of `left` in a list by name, as seen from `right`.
fn name_order(left: &App, right: &App) -> (order: Ordering)
    ensures
        order == Ordering::Less <==> named_before(*left, *right),
        order == Ordering::Greater <==> named_before(*right, *left),
{
    match text_place(left.display_name.as_str(), right.display_name.as_str()) {
        Place::Before => Ordering::Less,
        Place::Same => Ordering::Equal,
        Place::After => Ordering::Greater,
    }
}

/// Sorts with rayon: `par_sort_by` puts the list into the order that
/// `rank_order` tells, and keeps apps that it does not tell apart in the order
/// in which they stood.
#[verifier::external_body]
fn par_sort_by_rank(apps: &mut Vec<App>)
    ensures
        sorted_by_rank(old(apps)@, final(apps)@),
{
    apps.par_sort_by(|left, right| rank_order(left, right));
}

/// Sorts with the standard library: `sort_by` puts the list into the order that
/// `name_order` tells, and keeps apps that it does not tell apart in the order
/// in which they stood.
#[verifier::external_body]
fn sort_by_name(apps: &mut Vec<App>)
    ensures
        sorted_by_name(old(apps)@, final(apps)@),
{
    apps.sort_by(|left, right| name_order(left, right));
}

/// The index that holds each of the apps under its search name; of several with
/// one name it holds the last.
pub open spec fn indexed(apps: Seq<App>) -> Map<Seq<char>, App>
    decreases apps.len(),
{
    if apps.len() == 0 {
        Map::empty()
    } else {
        indexed(apps.drop_last()).insert(apps.last().search_name@, apps.last())
    }
}

/// The search names of the apps, each at the place where it first stands.
pub open spec fn names_of(apps: Seq<App>) -> Seq<Seq<char>>
    decreases apps.len(),
{
    if apps.len() == 0 {
        Seq::empty()
    } else {
        let names = names_of(apps.drop_last());
        if names.contains(apps.last().search_name@) {
            names
        } else {
            names.push(apps.last().search_name@)
        }
    }
}

/// `index` with another ranking for the app `name`, if there is one.
pub open spec fn reranked(
    index: Map<Seq<char>, App>,
    name: Seq<char>,
    ranking: int,
) -> Map<Seq<char>, App> {
    if index.contains_key(name) {
        index.insert(name, App { ranking: ranking as i32, ..index[name] })
    } else {
        index
    }
}

/// The rankings of the apps that were used.
pub open spec fn rankings_in(index: Map<Seq<char>, App>) -> Map<Seq<char>, i32> {
    Map::new(
        |name: Seq<char>| index.contains_key(name) && index[name].ranking > 0,
        |name: Seq<char>| index[name].ranking,
    )
}

/// `top` is what comes first, at most `limit` apps, when the used apps among
/// `apps` are sorted by rank.
pub open spec fn is_top(apps: Seq<App>, limit: int, top: Seq<App>) -> bool {
    let used = apps.filter(|app: App| app.ranking > 0);
    exists|sorted: Seq<App>|
        #[trigger] sorted_by_rank(used, sorted) && top == sorted.take(
            if limit < used.len() {
                limit
            } else {
                used.len() as int
            },
        )
}

/// `favourites` holds the favourites among `apps`, sorted by name.
pub open spec fn lists_favourites(apps: Seq<App>, favourites: Seq<App>) -> bool {
    sorted_by_name(apps.filter(|app: App| app.ranking == -1), favourites)
}

/// All the indexed apps that a search goes through.
#[derive(Debug)]
pub struct AppIndex {
    pub by_name: StringMap<App>,
}

impl Clone for AppIndex {
    fn clone(&self) -> (copy: Self)
        ensures
            copy.by_name.entries() == self.by_name.entries(),
            copy@ == self@,
            self.wf() ==> copy.wf(),
    {
        let copy = AppIndex { by_name: self.by_name.clone() };
        assert(copy.by_name.entries() =~= self.by_name.entries());
        assert(copy@ =~= self@);
        copy
    }
}

impl View for AppIndex {
    type V = Map<Seq<char>, App>;

    open spec fn view(&self) -> Map<Seq<char>, App> {
        self.by_name@
    }
}

impl AppIndex {
    /// Every app stands in the index under its search name, once.
    pub open spec fn wf(&self) -> bool {
        &&& self.by_name.wf()
        &&& forall|name: Seq<char>| #[trigger]
            self@.contains_key(name) ==> self@[name].search_name@ == name
    }

    /// The apps, in the order in which their names first came in.
    pub open spec fn apps(&self) -> Seq<App> {
        self.by_name.entries().map_values(|entry: (String, App)| entry.1)
    }

    /// The apps whose names answer to the query.
    pub fn search_prefix<'a>(&'a self, prefix: &'a str) -> (found: Vec<&'a App>)
        ensures
            found@.unref() == matching(self.by_name.entries(), prefix@),
            exists|at: Seq<int>| #[trigger]
                finds_from(self.by_name.entries(), prefix@, found@.unref(), at),
    {
        proof {
            law_search_gives_each_answer_once(self.by_name.entries(), prefix@);
        }
        par_select(self.by_name.as_entries(), prefix)
    }

    /// Counts one more use of the app `name`.
    pub fn update_ranking(&mut self, name: &str)
        requires
            old(self).wf(),
            old(self)@.contains_key(name@) ==> old(self)@[name@].ranking < i32::MAX,
        ensures
            final(self).wf(),
            final(self).by_name.keys() == old(self).by_name.keys(),
            final(self)@ == reranked(old(self)@, name@, old(self)@[name@].ranking + 1),
            final(self)@.dom() == old(self)@.dom(),
            forall|other: Seq<char>| #[trigger]
                old(self)@.contains_key(other) ==> final(self)@[other] == if other == name@ {
                    App {
                        ranking: (old(self)@[other].ranking + 1) as i32,
                        ..old(self)@[other]
                    }
                } else {
                    old(self)@[other]
                },
    {
        let app = match self.by_name.get_mut(name) {
            Some(a) => a,
            None => return,
        };

        app.ranking += 1;
    }

    /// Gives the app `name` the ranking `rank`.
    pub fn set_ranking(&mut self, name: &str, rank: i32)
        requires
            old(self).wf(),
        ensures
            final(self).wf(),
            final(self).by_name.keys() == old(self).by_name.keys(),
            final(self)@ == reranked(old(self)@, name@, rank as int),
            final(self)@.dom() == old(self)@.dom(),
            forall|other: Seq<char>| #[trigger]
                old(self)@.contains_key(other) ==> final(self)@[other] == if other == name@ {
                    App { ranking: rank, ..old(self)@[other] }
                } else {
                    old(self)@[other]
                },
    {
        let app = match self.by_name.get_mut(name) {
            Some(a) => a,
            None => return,
        };

        app.ranking = rank;
    }

    /// The rankings of the apps that were used, by name.
    pub fn get_rankings(&self) -> (rankings: StringMap<i32>)
        requires
            self.wf(),
        ensures
            rankings.wf(),
            rankings@ == rankings_in(self@),
            forall|name: Seq<char>| #[trigger]
                rankings@.contains_key(name) <==> self@.contains_key(name) && self@[name].ranking
                    > 0,
            forall|name: Seq<char>| #[trigger]
                rankings@.contains_key(name) ==> rankings@[name] == self@[name].ranking,
    {
        let entries = self.by_name.as_entries();
        let mut rankings: StringMap<i32> = StringMap::new();
        for i in 0..entries.len()
            invariant
                self.wf(),
                entries@ == self.by_name.entries(),
                rankings.wf(),
                forall|name: Seq<char>| #[trigger]
                    rankings@.contains_key(name) ==> rankings_in(self@).contains_key(name)
                        && rankings@[name] == self@[name].ranking,
                forall|j: int|
                    0 <= j < i && (#[trigger] entries@[j]).1.ranking > 0
                        ==> rankings@.contains_key(entries@[j].0@),
        {
            proof {
                self.by_name.lemma_entry(i as int);
            }
            if entries[i].1.ranking > 0 {
                rankings.insert(entries[i].0.clone(), entries[i].1.ranking);
            }
        }
        proof {
            assert forall|name: Seq<char>| #[trigger]
                rankings_in(self@).contains_key(name) implies rankings@.contains_key(name) by {
                let j = self.by_name.lemma_key(name);
                assert(entries@[j].1.ranking > 0);
            }
            assert(rankings@ =~= rankings_in(self@));
        }
        rankings
    }

    /// The most used apps, the most used first, at most `limit` of them.
    pub fn top_ranked(&self, limit: usize) -> (top: Vec<App>)
        ensures
            is_top(self.apps(), limit as int, top@),
            exists|from: Seq<int>| #[trigger]
                most_used_from(self.apps(), limit as nat, top@, from),
    {
        let ghost used = |app: App| app.ranking > 0;
        let entries = self.by_name.as_entries();
        let mut ranked: Vec<App> = Vec::new();
        assert(self.apps().take(0).filter(used) =~= Seq::<App>::empty());
        for i in 0..entries.len()
            invariant
                entries@ == self.by_name.entries(),
                used == (|app: App| app.ranking > 0),
                ranked@ == self.apps().take(i as int).filter(used),
        {
            proof {
                lemma_filter_step(self.apps(), i as int, used);
            }
            if entries[i].1.ranking > 0 {
                ranked.push(entries[i].1.clone());
            }
        }
        assert(self.apps().take(entries@.len() as int) =~= self.apps());
        par_sort_by_rank(&mut ranked);
        let ghost sorted = ranked@;
        ranked.truncate(limit);
        proof {
            assert(sorted_by_rank(self.apps().filter(used), sorted));
            assert(sorted.take(sorted.len() as int) =~= sorted);
            law_top_is_the_most_used(self.apps(), limit as nat, ranked@);
        }
        ranked
    }

    /// The favourites, by name.
    pub fn get_favourites(&self) -> (favourites: Vec<App>)
        ensures
            lists_favourites(self.apps(), favourites@),
            exists|from: Seq<int>| #[trigger] favourites_from(self.apps(), favourites@, from),
    {
        let ghost favourite = |app: App| app.ranking == -1;
        let entries = self.by_name.as_entries();
        let mut favs: Vec<App> = Vec::new();
        assert(self.apps().take(0).filter(favourite) =~= Seq::<App>::empty());
        for i in 0..entries.len()
            invariant
                entries@ == self.by_name.entries(),
                favourite == (|app: App| app.ranking == -1),
                favs@ == self.apps().take(i as int).filter(favourite),
        {
            proof {
                lemma_filter_step(self.apps(), i as int, favourite);
            }
            if entries[i].1.ranking == -1 {
                favs.push(entries[i].1.clone());
            }
        }
        assert(self.apps().take(entries@.len() as int) =~= self.apps());
        sort_by_name(&mut favs);
        proof {
            law_favourites_are_listed_by_name(self.apps(), favs@);
        }
        favs
    }

    /// An index without apps.
    pub fn empty() -> (index: AppIndex)
        ensures
            index.wf(),
            index.by_name.entries().len() == 0,
            index@ == Map::<Seq<char>, App>::empty(),
    {
        AppIndex { by_name: StringMap::new() }
    }

    /// The index of the given apps.
    pub fn from_apps(options: Vec<App>) -> (index: AppIndex)
        ensures
            index.wf(),
            index@ == indexed(options@),
            index.by_name.keys() == names_of(options@),
    {
        let ghost all = options@;
        let mut by_name: StringMap<App> = StringMap::new();
        assert(all.take(0) =~= Seq::<App>::empty());
        assert(by_name.keys() =~= Seq::<Seq<char>>::empty());
        for app in it: options
            invariant
                it.seq() == all,
                (AppIndex { by_name }).wf(),
                by_name@ == indexed(all.take(it.index())),
                by_name.keys() == names_of(all.take(it.index())),
        {
            assert(all.take(it.index() + 1).drop_last() =~= all.take(it.index()));
            by_name.insert(app.search_name.clone(), app);
        }
        assert(all.take(all.len() as int) =~= all);
        AppIndex { by_name }
    }
}

/// One more element of `s` is one more element of its filtered part, if it
/// passes.
proof fn lemma_filter_step(s: Seq<App>, i: int, keep: spec_fn(App) -> bool)
    requires
        0 <= i < s.len(),
    ensures
        s.take(i + 1).filter(keep) == if keep(s[i]) {
            s.take(i).filter(keep).push(s[i])
        } else {
            s.take(i).filter(keep)
        },
{
    broadcast use Seq::lemma_filter_push;

    assert(s.take(i + 1) =~= s.take(i).push(s[i]));
}

} // verus!
