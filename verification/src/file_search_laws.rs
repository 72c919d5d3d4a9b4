//! What holds of every file search.
use crate::apps::App;
use crate::file_search::{
    at_start, is_search_start, is_search_step, mdfind_args, read_step, reads_on, MdfindReader, ReadEvent, Reading,
    SearchAction, SearchEvent, SearchState, SearchStep, FILE_SEARCH_BATCH_SIZE,
    FILE_SEARCH_MAX_RESULTS,
};
use crate::text::{byte_len, texts, tilde_expanded};
use vstd::prelude::*;

verus! {

/// The arguments look in the directory `dir`, named as number `i`.
pub open spec fn looks_in(args: Seq<Seq<char>>, i: int, dir: Seq<char>, home: Seq<char>) -> bool {
    args[2 + 2 * i] == "-onlyin"@ && args[3 + 2 * i] == tilde_expanded(dir, home)
}

/// The arguments name the query first and then each directory, in order, with
/// the home directory in place of `~`.
pub proof fn law_args_name_every_dir(query: Seq<char>, dirs: Seq<Seq<char>>, home: Seq<char>)
    ensures
        mdfind_args(query, dirs, home).len() == 2 + 2 * dirs.len(),
        mdfind_args(query, dirs, home)[0] == "-name"@,
        mdfind_args(query, dirs, home)[1] == query,
        forall|i: int|
            0 <= i < dirs.len() ==> #[trigger] looks_in(
                mdfind_args(query, dirs, home),
                i,
                dirs[i],
                home,
            ),
    decreases dirs.len(),
{
    if dirs.len() > 0 {
        let rest = dirs.drop_last();
        let before = mdfind_args(query, rest, home);
        law_args_name_every_dir(query, rest, home);
        assert forall|i: int| 0 <= i < dirs.len() implies #[trigger] looks_in(
            mdfind_args(query, dirs, home),
            i,
            dirs[i],
            home,
        ) by {
            if i < rest.len() {
                assert(looks_in(before, i, rest[i], home));
            }
        }
    }
}

/// A path without `~` stays as it is.
pub proof fn law_path_without_tilde_stays(dir: Seq<char>, home: Seq<char>)
    requires
        !dir.contains('~'),
    ensures
        tilde_expanded(dir, home) == dir,
    decreases dir.len(),
{
    if dir.len() > 0 {
        assert(dir.contains(dir.last()));
        assert forall|c: char| #[trigger] dir.drop_last().contains(c) implies dir.contains(c) by {
            let i = dir.drop_last().index_of(c);
            assert(dir[i] == c);
        }
        law_path_without_tilde_stays(dir.drop_last(), home);
        assert(dir.drop_last().push(dir.last()) =~= dir);
    }
}

/// Where the home directory has no `~` in its name, no expanded path has one.
pub proof fn law_no_tilde_is_left(dir: Seq<char>, home: Seq<char>)
    requires
        !home.contains('~'),
    ensures
        !tilde_expanded(dir, home).contains('~'),
    decreases dir.len(),
{
    if dir.len() > 0 {
        law_no_tilde_is_left(dir.drop_last(), home);
        let before = tilde_expanded(dir.drop_last(), home);
        let after = tilde_expanded(dir, home);
        assert forall|i: int| 0 <= i < after.len() implies #[trigger] after[i] != '~' by {
            if i < before.len() {
                assert(before.contains(before[i]));
            } else if dir.last() == '~' {
                assert(home.contains(home[i - before.len()]));
            }
        }
    }
}

/// What a reader has done after some events: its state, the batches that it
/// sent, and whether it is done.
pub struct Run {
    pub reading: Reading,
    pub sent: Seq<Seq<App>>,
    pub done: Option<bool>,
}

/// What a reader does from the start of the output on. Once it is done it takes
/// no further event.
pub open spec fn run(events: Seq<ReadEvent>) -> Run
    decreases events.len(),
{
    if events.len() == 0 {
        Run { reading: at_start(), sent: Seq::empty(), done: None }
    } else {
        let before = run(events.drop_last());
        if before.done is Some {
            before
        } else {
            let (reading, send, done) = read_step(before.reading, events.last());
            Run {
                reading,
                sent: match send {
                    Some(batch) => before.sent.push(batch),
                    None => before.sent,
                },
                done,
            }
        }
    }
}

/// The results that the events bring up to the one at which the reader is done.
pub open spec fn found(events: Seq<ReadEvent>) -> Seq<App>
    decreases events.len(),
{
    if events.len() == 0 {
        Seq::empty()
    } else {
        let before = found(events.drop_last());
        if run(events.drop_last()).done is Some {
            before
        } else {
            match events.last() {
                ReadEvent::Line(Some(app)) => before.push(app),
                _ => before,
            }
        }
    }
}

/// The batches one behind the other.
pub open spec fn joined(batches: Seq<Seq<App>>) -> Seq<App>
    decreases batches.len(),
{
    if batches.len() == 0 {
        Seq::empty()
    } else {
        joined(batches.drop_last()) + batches.last()
    }
}

proof fn lemma_joined_push(batches: Seq<Seq<App>>, batch: Seq<App>)
    ensures
        joined(batches.push(batch)) == joined(batches) + batch,
{
    assert(batches.push(batch).drop_last() =~= batches);
}

/// As long as the output is read, the results that were sent and the batch in
/// hand are, in order, all that was found; what was sent went in full batches.
pub proof fn law_no_result_is_lost(events: Seq<ReadEvent>)
    requires
        run(events).done is None,
    ensures
        joined(run(events).sent) + run(events).reading.batch == found(events),
        run(events).reading.total == found(events).len(),
        reads_on(run(events).reading),
        forall|i: int|
            0 <= i < run(events).sent.len() ==> (#[trigger] run(events).sent[i]).len()
                == FILE_SEARCH_BATCH_SIZE,
    decreases events.len(),
{
    if events.len() == 0 {
        assert(joined(run(events).sent) + run(events).reading.batch =~= found(events));
    } else {
        let before = run(events.drop_last());
        let after = run(events);
        law_no_result_is_lost(events.drop_last());
        match events.last() {
            ReadEvent::Line(Some(app)) => {
                let batch = before.reading.batch.push(app);
                lemma_joined_push(before.sent, batch);
                assert(joined(before.sent) + batch =~= (joined(before.sent)
                    + before.reading.batch).push(app));
                if batch.len() >= FILE_SEARCH_BATCH_SIZE {
                    assert(after.sent == before.sent.push(batch));
                    assert(joined(after.sent) + after.reading.batch =~= joined(after.sent));
                }
            },
            _ => {},
        }
    }
}

/// When the output ends, or all results that a search may give are there, every
/// result that was found has been sent, in order.
pub proof fn law_all_results_are_sent(events: Seq<ReadEvent>, last: ReadEvent)
    requires
        run(events).done is None,
        run(events.push(last)).done == Some(false),
        !(last is Failed),
    ensures
        joined(run(events.push(last)).sent) == found(events.push(last)),
{
    let all = events.push(last);
    assert(all.drop_last() =~= events);
    law_no_result_is_lost(events);
    let before = run(events);
    match last {
        ReadEvent::Line(Some(app)) => {
            let batch = before.reading.batch.push(app);
            lemma_joined_push(before.sent, batch);
            assert(joined(before.sent) + batch =~= (joined(before.sent)
                + before.reading.batch).push(app));
        },
        ReadEvent::Eof => {
            lemma_joined_push(before.sent, before.reading.batch);
            assert(before.reading.batch.len() == 0 ==> joined(before.sent) + before.reading.batch
                =~= joined(before.sent));
        },
        _ => {},
    }
}

/// Whatever ends the output, what was sent is what was found first.
pub proof fn law_sent_is_found_first(events: Seq<ReadEvent>)
    ensures
        joined(run(events).sent).len() <= found(events).len(),
        joined(run(events).sent) == found(events).take(joined(run(events).sent).len() as int),
    decreases events.len(),
{
    let sent = joined(run(events).sent);
    if events.len() == 0 {
        assert(sent =~= found(events).take(0));
    } else {
        let rest = events.drop_last();
        law_sent_is_found_first(rest);
        if run(rest).done is None {
            assert(rest.push(events.last()) =~= events);
            if run(events).done is None {
                law_no_result_is_lost(events);
                assert(sent =~= found(events).take(sent.len() as int));
            } else if run(events).done == Some(false) && !(events.last() is Failed) {
                law_all_results_are_sent(rest, events.last());
                assert(sent =~= found(events).take(sent.len() as int));
            }
        }
    }
}

/// A run of `mdfind` gives no more results than it may, and no batch is empty
/// or larger than a batch.
pub proof fn law_results_are_limited(events: Seq<ReadEvent>)
    ensures
        joined(run(events).sent).len() <= FILE_SEARCH_MAX_RESULTS,
        forall|i: int|
            0 <= i < run(events).sent.len() ==> 0 < (#[trigger] run(events).sent[i]).len()
                <= FILE_SEARCH_BATCH_SIZE,
    decreases events.len(),
{
    if events.len() > 0 {
        let before = run(events.drop_last());
        law_results_are_limited(events.drop_last());
        if before.done is None {
            law_no_result_is_lost(events.drop_last());
            match read_step(before.reading, events.last()).1 {
                Some(batch) => {
                    lemma_joined_push(before.sent, batch);
                },
                None => {},
            }
        }
    }
}

/// A reader is cut short by a new query, or when the query can no longer be
/// changed, and by nothing else; it then sends nothing more.
pub proof fn law_what_cuts_a_reader_short(reading: Reading, event: ReadEvent)
    ensures
        read_step(reading, event).2 == Some(true) <==> event is QueryChanged
            || event is QueryClosed,
        read_step(reading, event).2 == Some(true) ==> read_step(reading, event).1 is None,
{
}

/// A reader reads on exactly until the output ends or fails, the query changes
/// or can no longer be changed, or the last result that it may give is there.
pub proof fn law_when_a_reader_is_done(reading: Reading, event: ReadEvent)
    requires
        reads_on(reading),
    ensures
        read_step(reading, event).2 is Some <==> {
            ||| event is QueryChanged
            ||| event is QueryClosed
            ||| event is Eof
            ||| event is Failed
            ||| event matches ReadEvent::Line(Some(app)) && reading.total + 1
                == FILE_SEARCH_MAX_RESULTS
        },
{
}

/// Whether `mdfind` runs while a search is in the state `state`.
pub open spec fn mdfind_runs(state: SearchState) -> bool {
    state == SearchState::Reading
}

/// The number of running `mdfind` processes when all actions of a step are
/// done: one more if the event says that one was started, one less if the step
/// waits for the end of one.
pub open spec fn processes_after(before: int, event: SearchEvent, step: SearchStep) -> int {
    before + (if event is Spawned {
        1int
    } else {
        0int
    }) - (if step.actions@.contains(SearchAction::Wait) {
        1int
    } else {
        0int
    })
}

/// No search has two `mdfind` processes: one runs exactly while its output is
/// read, and a new one is only started when none runs.
pub proof fn law_at_most_one_mdfind(
    state: SearchState,
    event: SearchEvent,
    home: Seq<char>,
    step: SearchStep,
)
    requires
        is_search_step(state, event, home, step),
    ensures
        processes_after(
            if mdfind_runs(state) {
                1
            } else {
                0
            },
            event,
            step,
        ) == if mdfind_runs(step.state) {
            1int
        } else {
            0int
        },
        spawns(step) ==> !mdfind_runs(state) && !(event is Spawned),
{
    let actions = step.actions@;
    match (state, event) {
        (SearchState::Starting, SearchEvent::Spawned { captured }) => if !captured {
            assert(actions[1] == SearchAction::Wait);
        },
        (SearchState::Reading, SearchEvent::ReadDone { canceled }) => if canceled {
            assert(actions[1] == SearchAction::Wait);
        } else {
            assert(actions[0] == SearchAction::Wait);
        },
        _ => {},
    }
}

/// The steps of a file search, from its start on: `steps[0]` is the first, and
/// `steps[i + 1]` is what it does at `events[i]`.
pub open spec fn is_search_run(
    events: Seq<SearchEvent>,
    steps: Seq<SearchStep>,
    home: Seq<char>,
) -> bool {
    &&& steps.len() == events.len() + 1
    &&& is_search_start(steps[0])
    &&& forall|i: int|
        0 <= i < events.len() ==> is_search_step(
            steps[i].state,
            #[trigger] events[i],
            home,
            steps[i + 1],
        )
}

/// `step` starts `mdfind`.
pub open spec fn spawns(step: SearchStep) -> bool {
    exists|i: int| 0 <= i < step.actions@.len() && #[trigger] step.actions@[i] is Spawn
}

/// A file search starts no `mdfind` before the user has changed the query, and
/// then only in answer to a query that is long enough.
pub proof fn law_nothing_starts_before_a_query(
    events: Seq<SearchEvent>,
    steps: Seq<SearchStep>,
    home: Seq<char>,
    k: int,
)
    requires
        is_search_run(events, steps, home),
        0 <= k < steps.len(),
        spawns(steps[k]),
    ensures
        k >= 2,
        events[0] is Changed,
        events[k - 1] matches SearchEvent::Query { query, dirs } && byte_len(query@) >= 2,
{
    if k >= 1 {
        assert(is_search_step(steps[k - 1].state, events[k - 1], home, steps[k]));
        assert(is_search_step(steps[0].state, events[0], home, steps[1]));
        if events[0] is Closed && k >= 2 {
            assert(is_search_step(steps[1].state, events[1], home, steps[2]));
        }
    }
}

/// The number of running `mdfind` processes when all steps are done.
pub open spec fn processes_over(events: Seq<SearchEvent>, steps: Seq<SearchStep>) -> int
    decreases events.len(),
{
    if events.len() == 0 {
        0
    } else {
        processes_after(
            processes_over(events.drop_last(), steps.drop_last()),
            events.last(),
            steps.last(),
        )
    }
}

/// Over a whole file search one `mdfind` process runs while its output is read,
/// and none at any other time.
pub proof fn law_one_mdfind_over_a_run(
    events: Seq<SearchEvent>,
    steps: Seq<SearchStep>,
    home: Seq<char>,
)
    requires
        is_search_run(events, steps, home),
    ensures
        processes_over(events, steps) == if mdfind_runs(steps.last().state) {
            1int
        } else {
            0int
        },
    decreases events.len(),
{
    if events.len() > 0 {
        let n = events.len() - 1;
        let before = steps.drop_last();
        assert(is_search_run(events.drop_last(), before, home)) by {
            assert forall|i: int| 0 <= i < n implies is_search_step(
                before[i].state,
                #[trigger] events.drop_last()[i],
                home,
                before[i + 1],
            ) by {
                assert(is_search_step(steps[i].state, events[i], home, steps[i + 1]));
            }
        }
        law_one_mdfind_over_a_run(events.drop_last(), before, home);
        assert(is_search_step(steps[n].state, events[n], home, steps[n + 1]));
        law_at_most_one_mdfind(steps[n].state, events[n], home, steps[n + 1]);
    }
}

/// A query that comes while `mdfind` runs ends it; the search looks at the
/// latest query at once, without waiting for another change, and starts `mdfind`
/// anew for it, or clears the results where the query is too short.
pub proof fn law_new_query_replaces_the_old(
    canceled: SearchStep,
    query: String,
    dirs: Vec<String>,
    home: Seq<char>,
    fresh: SearchStep,
)
    requires
        is_search_step(
            SearchState::Reading,
            SearchEvent::ReadDone { canceled: true },
            home,
            canceled,
        ),
        is_search_step(canceled.state, SearchEvent::Query { query, dirs }, home, fresh),
    ensures
        canceled.actions@ == seq![SearchAction::Kill, SearchAction::Wait, SearchAction::TakeQuery],
        byte_len(query@) >= 2 ==> {
            &&& fresh.actions@.len() == 1
            &&& fresh.actions@[0] matches SearchAction::Spawn(args) && texts(args@) == mdfind_args(
                query@,
                texts(dirs@),
                home,
            )
        },
        byte_len(query@) < 2 ==> fresh.actions@ == seq![
            SearchAction::Clear,
            SearchAction::AwaitChange,
        ],
{
}

/// A reader's state is the batch that it holds, in order, and its count.
pub proof fn law_reader_shows_its_batch(reader: MdfindReader)
    ensures
        reader@.batch == reader.batch@,
        reader@.total == reader.total_sent,
{
}

/// What full batches of ten hold, one behind the other.
proof fn lemma_full_batches(batches: Seq<Seq<App>>, i: int)
    requires
        forall|j: int| 0 <= j < batches.len() ==> (#[trigger] batches[j]).len() == 10,
    ensures
        joined(batches).len() == 10 * batches.len(),
        0 <= i < batches.len() ==> batches[i] == joined(batches).subrange(10 * i, 10 * i + 10),
    decreases batches.len(),
{
    if batches.len() > 0 {
        let rest = batches.drop_last();
        lemma_full_batches(rest, i);
        let all = joined(batches);
        assert(batches.last().len() == 10);
        if 0 <= i < rest.len() {
            assert(batches[i] =~= all.subrange(10 * i, 10 * i + 10)) by {
                assert(batches[i] == joined(rest).subrange(10 * i, 10 * i + 10));
            }
        } else if i == rest.len() {
            assert(batches[i] =~= all.subrange(10 * i, 10 * i + 10));
        }
    }
}

/// While the output is read, the results are sent ten at a time: the first ten
/// that were found, then the next ten, and so on; those behind the last ten are
/// in hand, and there are less than four hundred in all.
pub proof fn law_results_go_out_in_tens(events: Seq<ReadEvent>, i: int)
    requires
        run(events).done is None,
    ensures
        found(events).len() < 400,
        run(events).sent.len() == found(events).len() / 10,
        0 <= i < run(events).sent.len() ==> run(events).sent[i] == found(events).subrange(
            10 * i,
            10 * i + 10,
        ),
        run(events).reading.batch == found(events).skip(10 * run(events).sent.len() as int),
{
    law_no_result_is_lost(events);
    let sent = run(events).sent;
    let batch = run(events).reading.batch;
    lemma_full_batches(sent, i);
    assert(found(events) == joined(sent) + batch);
    assert(found(events).skip(10 * sent.len() as int) =~= batch);
    if 0 <= i < sent.len() {
        assert(found(events).subrange(10 * i, 10 * i + 10) =~= joined(sent).subrange(
            10 * i,
            10 * i + 10,
        ));
    }
}

/// What a reader does at its next event, by what it has found so far: a line with
/// an entry is the end if it is the four hundredth, and sends what is in hand if
/// that makes ten; a line without one does nothing; the end of the output sends
/// what is in hand; a failure, a new query or the end of all queries sends
/// nothing.
pub proof fn law_what_a_reader_does_next(events: Seq<ReadEvent>, next: ReadEvent)
    requires
        run(events).done is None,
    ensures
        ({
            let all = found(events);
            let sent = run(events).sent;
            let hand = all.skip(10 * (all.len() / 10) as int);
            let after = run(events.push(next));
            match next {
                ReadEvent::Line(Some(app)) => {
                    &&& found(events.push(next)) == all.push(app)
                    &&& after.done == if all.len() + 1 == 400 {
                        Some(false)
                    } else {
                        None
                    }
                    &&& after.sent == if (all.len() + 1) % 10 == 0 {
                        sent.push(hand.push(app))
                    } else {
                        sent
                    }
                },
                ReadEvent::Line(None) => after.done is None && after.sent == sent,
                ReadEvent::Eof => {
                    &&& after.done == Some(false)
                    &&& after.sent == if hand.len() > 0 {
                        sent.push(hand)
                    } else {
                        sent
                    }
                },
                ReadEvent::Failed => after.done == Some(false) && after.sent == sent,
                ReadEvent::QueryChanged => after.done == Some(true) && after.sent == sent,
                ReadEvent::QueryClosed => after.done == Some(true) && after.sent == sent,
            }
        }),
{
    assert(events.push(next).drop_last() =~= events);
    law_results_go_out_in_tens(events, 0);
    law_no_result_is_lost(events);
}

/// The action is one that asks for the next event.
pub open spec fn asks(action: SearchAction) -> bool {
    action is AwaitChange || action is TakeQuery || action is Spawn || action is Read
}

/// Every step of a search but the last ends with the one action that its next
/// state waits for; and a search stops exactly when nobody can change the query
/// any more.
pub proof fn law_search_never_stalls(
    state: SearchState,
    event: SearchEvent,
    home: Seq<char>,
    step: SearchStep,
    i: int,
)
    requires
        is_search_step(state, event, home, step),
    ensures
        step.state == SearchState::Stopped <==> event is Closed,
        event is Closed ==> step.actions@.len() == 0,
        !(event is Closed) ==> {
            let last = step.actions@.len() - 1;
            &&& last >= 0
            &&& step.state == SearchState::Waiting <==> step.actions@[last] is AwaitChange
            &&& step.state == SearchState::Fresh <==> step.actions@[last] is TakeQuery
            &&& step.state == SearchState::Starting <==> step.actions@[last] is Spawn
            &&& step.state == SearchState::Reading <==> step.actions@[last] is Read
            &&& 0 <= i < last ==> !asks(step.actions@[i])
        },
{
}

/// Where each event leads: a change to the latest query; a query of two bytes or
/// more to a start, a shorter one back; a start that works to the reading, one
/// that does not back; the end of the reading to the latest query if it was cut
/// short, and back if not.
pub proof fn law_where_events_lead(
    state: SearchState,
    event: SearchEvent,
    home: Seq<char>,
    step: SearchStep,
)
    requires
        is_search_step(state, event, home, step),
    ensures
        step.state == SearchState::Fresh <==> event is Changed || event
            == (SearchEvent::ReadDone { canceled: true }),
        step.state == SearchState::Starting <==> (event matches SearchEvent::Query { query, dirs }
            && byte_len(query@) >= 2),
        step.state == SearchState::Reading <==> event == (SearchEvent::Spawned { captured: true }),
{
}

/// The results are cleared exactly for a query that is too short; `mdfind` is
/// ended exactly if its output cannot be read or its reading was cut short; and
/// it is waited for exactly when it was started and its output is not, or no
/// longer, read.
pub proof fn law_when_a_search_clears_and_ends(
    state: SearchState,
    event: SearchEvent,
    home: Seq<char>,
    step: SearchStep,
)
    requires
        is_search_step(state, event, home, step),
    ensures
        step.actions@.contains(SearchAction::Clear) <==> (event matches SearchEvent::Query {
            query,
            dirs,
        } && byte_len(query@) < 2),
        step.actions@.contains(SearchAction::Kill) <==> event == (SearchEvent::Spawned {
            captured: false,
        }) || event == (SearchEvent::ReadDone { canceled: true }),
        step.actions@.contains(SearchAction::Wait) <==> event == (SearchEvent::Spawned {
            captured: false,
        }) || event is ReadDone,
        step.actions@.contains(SearchAction::Kill) ==> step.actions@[0] is Kill
            && step.actions@[1] is Wait,
{
    let actions = step.actions@;
    match (state, event) {
        (SearchState::Fresh, SearchEvent::Query { query, dirs }) => if byte_len(query@) < 2 {
            assert(actions[0] == SearchAction::Clear);
        },
        (SearchState::Starting, SearchEvent::Spawned { captured }) => if !captured {
            assert(actions[0] == SearchAction::Kill);
            assert(actions[1] == SearchAction::Wait);
        },
        (SearchState::Reading, SearchEvent::ReadDone { canceled }) => if canceled {
            assert(actions[0] == SearchAction::Kill);
            assert(actions[1] == SearchAction::Wait);
        } else {
            assert(actions[0] == SearchAction::Wait);
        },
        _ => {},
    }
}

} // verus!
