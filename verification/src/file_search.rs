//! Searching for files with `mdfind`: how the program is called, how its output
//! is read, and when it is started and stopped.
use crate::apps::App;
use crate::text::{byte_len, expand_tilde, texts, tilde_expanded};
use vstd::prelude::*;

verus! {

/// Maximum file search results returned by a single mdfind invocation.
pub const FILE_SEARCH_MAX_RESULTS: u32 = 400;

/// Number of results to accumulate before flushing a batch to the window.
pub const FILE_SEARCH_BATCH_SIZE: u32 = 10;

/// The arguments that look for `query` in `dirs`, or everywhere where there are
/// none.
pub open spec fn mdfind_args(query: Seq<char>, dirs: Seq<Seq<char>>, home: Seq<char>) -> Seq<
    Seq<char>,
>
    decreases dirs.len(),
{
    if dirs.len() == 0 {
        seq!["-name"@, query]
    } else {
        mdfind_args(query, dirs.drop_last(), home).push("-onlyin"@).push(
            tilde_expanded(dirs.last(), home),
        )
    }
}

/// The arguments for a search; a query of less than two bytes starts none.
pub fn build_mdfind_args(query: &str, dirs: &[String], home_dir: &str) -> (args: Option<Vec<String>>)
    requires
        byte_len(query@) < 1024,
    ensures
        match args {
            None => byte_len(query@) < 2,
            Some(list) => byte_len(query@) >= 2 && texts(list@) == mdfind_args(
                query@,
                texts(dirs@),
                home_dir@,
            ),
        },
{
    if query.len() < 2 {
        return None;
    }
    let mut args: Vec<String> = Vec::new();
    args.push("-name".to_owned());
    args.push(query.to_owned());
    let ghost all = texts(dirs@);
    assert(all.take(0) =~= Seq::<Seq<char>>::empty());
    assert(texts(args@) =~= seq!["-name"@, query@]);
    for i in 0..dirs.len()
        invariant
            all == texts(dirs@),
            texts(args@) == mdfind_args(query@, all.take(i as int), home_dir@),
    {
        let ghost before = args@;
        args.push("-onlyin".to_owned());
        args.push(expand_tilde(dirs[i].as_str(), home_dir));
        assert(all.take(i + 1).drop_last() =~= all.take(i as int));
        assert(texts(args@) =~= texts(before).push("-onlyin"@).push(
            tilde_expanded(all[i as int], home_dir@),
        ));
    }
    assert(all.take(dirs@.len() as int) =~= all);
    Some(args)
}

/// The home directory, from the value that the environment has for it. The
/// value is not empty.
pub fn home_dir(var: Option<String>) -> (home: String)
    requires
        var matches Some(value) ==> value@.len() > 0,
    ensures
        home@ == match var {
            Some(value) => value@,
            None => "/"@,
        },
        home@.len() > 0,
{
    proof {
        reveal_strlit("/");
    }
    match var {
        Some(value) => value,
        None => "/".to_owned(),
    }
}

/// What the reader of the output of `mdfind` meets next.
pub enum ReadEvent {
    /// The user asked for something else.
    QueryChanged,
    /// Nobody can change the query any more.
    QueryClosed,
    /// The output is at its end.
    Eof,
    /// A line, and the entry for the path on it, if it is the path of one.
    Line(Option<App>),
    /// The output could not be read.
    Failed,
}

/// What the reader has to do about it.
pub struct ReadStep {
    /// A batch of results to hand to the window.
    pub send: Option<Vec<App>>,
    /// The reader is done; the value says whether it was cut short, by a new
    /// query or because the query can no longer be changed.
    pub done: Option<bool>,
}

/// The reader's state: what was found and not sent, and how many were found.
pub struct Reading {
    pub batch: Seq<App>,
    pub total: int,
}

/// What a reader in the state `reading` does at `event`: its next state, the
/// batch that it sends, and whether it is done.
pub open spec fn read_step(reading: Reading, event: ReadEvent) -> (
    Reading,
    Option<Seq<App>>,
    Option<bool>,
) {
    match event {
        ReadEvent::QueryChanged | ReadEvent::QueryClosed => (reading, None, Some(true)),
        ReadEvent::Eof => (
            Reading { batch: Seq::empty(), total: reading.total },
            if reading.batch.len() > 0 {
                Some(reading.batch)
            } else {
                None
            },
            Some(false),
        ),
        ReadEvent::Line(None) => (reading, None, None),
        ReadEvent::Line(Some(app)) => {
            let batch = reading.batch.push(app);
            let total = reading.total + 1;
            let last = total >= FILE_SEARCH_MAX_RESULTS;
            let done = if last {
                Some(false)
            } else {
                None
            };
            if batch.len() >= FILE_SEARCH_BATCH_SIZE || last {
                (Reading { batch: Seq::empty(), total }, Some(batch), done)
            } else {
                (Reading { batch, total }, None, done)
            }
        },
        ReadEvent::Failed => (reading, None, Some(false)),
    }
}

/// Collects the results of one run of `mdfind` into batches.
pub struct MdfindReader {
    pub batch: Vec<App>,
    pub total_sent: u32,
}

impl View for MdfindReader {
    type V = Reading;

    open spec fn view(&self) -> Reading {
        Reading { batch: self.batch@, total: self.total_sent as int }
    }
}

/// A reader that is not done has less than a batch and less than all results.
pub open spec fn reads_on(reading: Reading) -> bool {
    &&& reading.batch.len() < FILE_SEARCH_BATCH_SIZE
    &&& 0 <= reading.total < FILE_SEARCH_MAX_RESULTS
}

/// The state of a reader at the start of the output.
pub open spec fn at_start() -> Reading {
    Reading { batch: Seq::empty(), total: 0 }
}

impl MdfindReader {
    /// A reader at the start of the output.
    pub fn new() -> (reader: MdfindReader)
        ensures
            reader@ == at_start(),
            reads_on(reader@),
    {
        let reader = MdfindReader { batch: Vec::new(), total_sent: 0 };
        assert(reader@.batch =~= Seq::<App>::empty());
        reader
    }

    /// The batch so far, which the reader then no longer has.
    fn take_batch(&mut self) -> (batch: Vec<App>)
        ensures
            batch@ == old(self).batch@,
            final(self).batch@ == Seq::<App>::empty(),
            final(self).total_sent == old(self).total_sent,
    {
        let mut batch: Vec<App> = Vec::new();
        batch.append(&mut self.batch);
        assert(batch@ =~= old(self).batch@);
        batch
    }

    /// Takes note of what comes next in the output.
    pub fn step(&mut self, event: ReadEvent) -> (step: ReadStep)
        requires
            reads_on(old(self)@),
        ensures
            final(self)@ == read_step(old(self)@, event).0,
            match step.send {
                Some(batch) => read_step(old(self)@, event).1 == Some(batch@),
                None => read_step(old(self)@, event).1 is None,
            },
            step.done == read_step(old(self)@, event).2,
            step.done is None ==> reads_on(final(self)@),
    {
        match event {
            ReadEvent::QueryChanged | ReadEvent::QueryClosed => {
                ReadStep { send: None, done: Some(true) }
            },
            ReadEvent::Eof => {
                if self.batch.len() > 0 {
                    let batch = self.take_batch();
                    ReadStep { send: Some(batch), done: Some(false) }
                } else {
                    assert(self.batch@ =~= Seq::<App>::empty());
                    ReadStep { send: None, done: Some(false) }
                }
            },
            ReadEvent::Line(found) => {
                let mut send: Option<Vec<App>> = None;
                let mut done: Option<bool> = None;
                if let Some(app) = found {
                    self.batch.push(app);
                    self.total_sent = self.total_sent + 1;
                }
                if self.batch.len() as u32 >= FILE_SEARCH_BATCH_SIZE {
                    send = Some(self.take_batch());
                }
                if self.total_sent >= FILE_SEARCH_MAX_RESULTS {
                    if self.batch.len() > 0 {
                        send = Some(self.take_batch());
                    }
                    done = Some(false);
                }
                ReadStep { send, done }
            },
            ReadEvent::Failed => ReadStep { send: None, done: Some(false) },
        }
    }
}

/// Where a file search stands.
#[derive(Clone, Copy, Debug, PartialEq, Eq, Structural)]
pub enum SearchState {
    /// It waits for the user to change the query.
    Waiting,
    /// The search looks at the latest query.
    Fresh,
    /// It has asked for `mdfind` to be started.
    Starting,
    /// `mdfind` runs and its output is read.
    Reading,
    /// Nobody can change the query any more.
    Stopped,
}

/// What a file search meets next.
pub enum SearchEvent {
    /// The query was changed.
    Changed,
    /// The query can no longer be changed.
    Closed,
    /// The latest query, and the directories to look in.
    Query { query: String, dirs: Vec<String> },
    /// `mdfind` could not be started.
    SpawnFailed,
    /// `mdfind` was started; its output can be read or not.
    Spawned { captured: bool },
    /// The reader of the output is done; it was cut short or not.
    ReadDone { canceled: bool },
}

/// What has to be done for a file search.
#[derive(Debug)]
pub enum SearchAction {
    /// Wait for a change of the query.
    AwaitChange,
    /// Look up the latest query.
    TakeQuery,
    /// Take the results of an earlier query off the window.
    Clear,
    /// Start `mdfind` with these arguments.
    Spawn(Vec<String>),
    /// Read the output of `mdfind`.
    Read,
    /// End `mdfind`.
    Kill,
    /// Wait until `mdfind` has ended.
    Wait,
}

/// The next state of a file search, and what has to be done, in order.
pub struct SearchStep {
    pub state: SearchState,
    pub actions: Vec<SearchAction>,
}

/// The event is one that a search in this state can meet, and its query, if it
/// has one, is not too long.
pub open spec fn expects(state: SearchState, event: SearchEvent) -> bool {
    match (state, event) {
        (SearchState::Waiting, SearchEvent::Changed) => true,
        (SearchState::Waiting, SearchEvent::Closed) => true,
        (SearchState::Fresh, SearchEvent::Query { query, dirs }) => byte_len(query@) < 1024,
        (SearchState::Starting, SearchEvent::SpawnFailed) => true,
        (SearchState::Starting, SearchEvent::Spawned { .. }) => true,
        (SearchState::Reading, SearchEvent::ReadDone { .. }) => true,
        _ => false,
    }
}

/// `step` is what a file search in the state `state` does at `event`.
pub open spec fn is_search_step(
    state: SearchState,
    event: SearchEvent,
    home: Seq<char>,
    step: SearchStep,
) -> bool {
    let actions = step.actions@;
    match (state, event) {
        (SearchState::Waiting, SearchEvent::Changed) => {
            &&& step.state == SearchState::Fresh
            &&& actions =~= seq![SearchAction::TakeQuery]
        },
        (SearchState::Waiting, SearchEvent::Closed) => {
            &&& step.state == SearchState::Stopped
            &&& actions =~= Seq::<SearchAction>::empty()
        },
        (SearchState::Fresh, SearchEvent::Query { query, dirs }) => if byte_len(query@) < 2 {
            &&& step.state == SearchState::Waiting
            &&& actions =~= seq![SearchAction::Clear, SearchAction::AwaitChange]
        } else {
            &&& step.state == SearchState::Starting
            &&& actions.len() == 1
            &&& actions[0] matches SearchAction::Spawn(args) && texts(args@) == mdfind_args(
                query@,
                texts(dirs@),
                home,
            )
        },
        (SearchState::Starting, SearchEvent::SpawnFailed) => {
            &&& step.state == SearchState::Waiting
            &&& actions =~= seq![SearchAction::AwaitChange]
        },
        (SearchState::Starting, SearchEvent::Spawned { captured }) => if captured {
            &&& step.state == SearchState::Reading
            &&& actions =~= seq![SearchAction::Read]
        } else {
            &&& step.state == SearchState::Waiting
            &&& actions =~= seq![SearchAction::Kill, SearchAction::Wait, SearchAction::AwaitChange]
        },
        (SearchState::Reading, SearchEvent::ReadDone { canceled }) => if canceled {
            &&& step.state == SearchState::Fresh
            &&& actions =~= seq![SearchAction::Kill, SearchAction::Wait, SearchAction::TakeQuery]
        } else {
            &&& step.state == SearchState::Waiting
            &&& actions =~= seq![SearchAction::Wait, SearchAction::AwaitChange]
        },
        _ => false,
    }
}

/// `step` is what a file search begins with: it waits for the user to ask for
/// something, and does nothing else.
pub open spec fn is_search_start(step: SearchStep) -> bool {
    &&& step.state == SearchState::Waiting
    &&& step.actions@ =~= seq![SearchAction::AwaitChange]
}

/// The first step of a file search.
pub fn start() -> (step: SearchStep)
    ensures
        is_search_start(step),
{
    let mut actions: Vec<SearchAction> = Vec::new();
    actions.push(SearchAction::AwaitChange);
    SearchStep { state: SearchState::Waiting, actions }
}

impl SearchState {
    /// The step of a file search at `event`, which it can meet.
    pub fn step(self, event: SearchEvent, home_dir: &str) -> (step: SearchStep)
        requires
            expects(self, event),
        ensures
            is_search_step(self, event, home_dir@, step),
    {
        let mut actions: Vec<SearchAction> = Vec::new();
        let state = match event {
            SearchEvent::Changed => {
                actions.push(SearchAction::TakeQuery);
                SearchState::Fresh
            },
            SearchEvent::Closed => SearchState::Stopped,
            SearchEvent::Query { query, dirs } => match build_mdfind_args(
                query.as_str(),
                dirs.as_slice(),
                home_dir,
            ) {
                None => {
                    actions.push(SearchAction::Clear);
                    actions.push(SearchAction::AwaitChange);
                    SearchState::Waiting
                },
                Some(args) => {
                    actions.push(SearchAction::Spawn(args));
                    SearchState::Starting
                },
            },
            SearchEvent::SpawnFailed => {
                actions.push(SearchAction::AwaitChange);
                SearchState::Waiting
            },
            SearchEvent::Spawned { captured } => {
                if captured {
                    actions.push(SearchAction::Read);
                    SearchState::Reading
                } else {
                    actions.push(SearchAction::Kill);
                    actions.push(SearchAction::Wait);
                    actions.push(SearchAction::AwaitChange);
                    SearchState::Waiting
                }
            },
            SearchEvent::ReadDone { canceled } => {
                if canceled {
                    actions.push(SearchAction::Kill);
                    actions.push(SearchAction::Wait);
                    actions.push(SearchAction::TakeQuery);
                    SearchState::Fresh
                } else {
                    actions.push(SearchAction::Wait);
                    actions.push(SearchAction::AwaitChange);
                    SearchState::Waiting
                }
            },
        };
        SearchStep { state, actions }
    }
}

} // verus!
