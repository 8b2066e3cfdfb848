//! Access counting. The counter turns each request that reaches it into one
//! increment command for the counter store, keyed by the request's path. The
//! store carries the command out as a single atomic step; the counter never
//! reads a count in order to write it back. What the store answers has no say
//! in how the request goes on.

use crate::error::TelemetryError;
use crate::route::Request;
use crate::text::{path_of, request_path};
use vstd::prelude::*;

verus! {

/// The key under which the counter store keeps the per-path counts.
pub const ACCESS_CNT: &'static str = "blog_access_cnt";

/// One atomic increment: add `delta` to the count kept under `key` for
/// `field`, starting from 0 where there is none yet.
#[derive(Clone, Debug, PartialEq, Eq)]
pub struct CounterCommand {
    pub key: String,
    pub field: String,
    pub delta: i64,
}

/// A path and the count the store holds for it.
#[derive(Clone, Debug, PartialEq, Eq)]
pub struct AccessCount {
    pub path: String,
    pub count: i64,
}

/// What became of one increment.
#[derive(Clone, Debug, PartialEq, Eq)]
pub enum Tally {
    /// The store counted the request; this is the count it answered with.
    Counted(AccessCount),
    /// The store could not count the request; this is the line to log.
    Skipped(String),
}

/// What a command stands for.
pub struct CommandView {
    pub key: Seq<char>,
    pub field: Seq<char>,
    pub delta: int,
}

impl View for CounterCommand {
    type V = CommandView;

    open spec fn view(&self) -> CommandView {
        CommandView { key: self.key@, field: self.field@, delta: self.delta as int }
    }
}

/// The command that counts a request for `target` under `key`: one more for
/// the target's path, query string excluded.
pub open spec fn command_for(key: Seq<char>, target: Seq<char>) -> CommandView {
    CommandView { key, field: path_of(target), delta: 1 }
}

/// The commands that count the requests for `targets`, one each, in order.
pub open spec fn commands_for(key: Seq<char>, targets: Seq<Seq<char>>) -> Seq<CommandView> {
    Seq::new(targets.len(), |i: int| command_for(key, targets[i]))
}

/// The paths of `targets`, in order.
pub open spec fn paths_of(targets: Seq<Seq<char>>) -> Seq<Seq<char>> {
    Seq::new(targets.len(), |i: int| path_of(targets[i]))
}

/// The count that `counts` holds for `path`: 0 where it holds none.
pub open spec fn count_at(counts: Map<Seq<char>, int>, path: Seq<char>) -> int {
    if counts.dom().contains(path) {
        counts[path]
    } else {
        0
    }
}

/// The counts kept under one key after the store has carried out `command`.
pub open spec fn carried_out(counts: Map<Seq<char>, int>, command: CommandView) -> Map<
    Seq<char>,
    int,
> {
    counts.insert(command.field, count_at(counts, command.field) + command.delta)
}

/// The counts after the store has carried out `commands` one after another.
pub open spec fn carried_out_all(
    counts: Map<Seq<char>, int>,
    commands: Seq<CommandView>,
) -> Map<Seq<char>, int>
    decreases commands.len(),
{
    if commands.len() == 0 {
        counts
    } else {
        carried_out(carried_out_all(counts, commands.drop_last()), commands.last())
    }
}

/// What `outcome` of carrying out a command for `field` is recorded as.
pub open spec fn tally_of(field: Seq<char>, outcome: Result<i64, TelemetryError>) -> TallyView {
    match outcome {
        Ok(count) => TallyView::Counted { path: field, count: count as int },
        Err(error) => TallyView::Skipped { line: error.message@ },
    }
}

/// What a tally stands for.
pub enum TallyView {
    Counted { path: Seq<char>, count: int },
    Skipped { line: Seq<char> },
}

impl View for Tally {
    type V = TallyView;

    open spec fn view(&self) -> TallyView {
        match self {
            Tally::Counted(access) => TallyView::Counted {
                path: access.path@,
                count: access.count as int,
            },
            Tally::Skipped(line) => TallyView::Skipped { line: line@ },
        }
    }
}

/// The access counter.
#[derive(Debug)]
pub struct AccessCounter {
    key: String,
}

impl AccessCounter {
    /// The key under which this counter has its counts kept.
    pub closed spec fn store_key(&self) -> Seq<char> {
        self.key@
    }

    /// A counter whose counts are kept under `ACCESS_CNT`.
    pub fn new() -> (counter: AccessCounter)
        ensures
            counter.store_key() == ACCESS_CNT@,
    {
        AccessCounter { key: String::from_str(ACCESS_CNT) }
    }

    /// A counter whose counts are kept under `key`.
    pub fn with_key(key: &str) -> (counter: AccessCounter)
        ensures
            counter.store_key() == key@,
    {
        AccessCounter { key: String::from_str(key) }
    }

    pub fn key(&self) -> (key: &str)
        ensures
            key@ == self.store_key(),
    {
        self.key.as_str()
    }

    /// The command that counts `request`: add one to the count of its path.
    pub fn command(&self, request: &Request) -> (command: CounterCommand)
        ensures
            command@ == command_for(self.store_key(), request.target@),
    {
        CounterCommand {
            key: self.key.clone(),
            field: request_path(request.target.as_str()),
            delta: 1,
        }
    }
}

/// Records what the store answered to `command`. A failure becomes a line to
/// log and nothing else: there is no way from here to a response.
pub fn settle(command: CounterCommand, outcome: Result<i64, TelemetryError>) -> (tally: Tally)
    ensures
        tally@ == tally_of(command.field@, outcome),
{
    match outcome {
        Ok(count) => Tally::Counted(AccessCount { path: command.field, count }),
        Err(error) => Tally::Skipped(error.message),
    }
}

/// Carrying out one command changes the count of its path by its delta and
/// leaves every other count as it was.
pub proof fn lemma_carried_out_counts(
    counts: Map<Seq<char>, int>,
    command: CommandView,
    path: Seq<char>,
)
    ensures
        path == command.field ==> count_at(carried_out(counts, command), path) == count_at(
            counts,
            path,
        ) + command.delta,
        path != command.field ==> count_at(carried_out(counts, command), path) == count_at(
            counts,
            path,
        ),
{
}

/// After the commands for any run of requests have been carried out, in the
/// order given, the count of every path has grown by exactly the number of
/// requests for that path. No increment is lost and none counts twice.
pub proof fn lemma_every_request_counts_once(
    counts: Map<Seq<char>, int>,
    key: Seq<char>,
    targets: Seq<Seq<char>>,
    path: Seq<char>,
)
    ensures
        count_at(carried_out_all(counts, commands_for(key, targets)), path) == count_at(
            counts,
            path,
        ) + paths_of(targets).to_multiset().count(path),
    decreases targets.len(),
{
    let commands = commands_for(key, targets);
    let paths = paths_of(targets);
    if targets.len() == 0 {
        paths.to_multiset_ensures();
        assert(paths.to_multiset().len() == 0);
        assert(paths.to_multiset().count(path) == 0) by {
            if paths.to_multiset().count(path) > 0 {
                vstd::multiset::lemma_multiset_empty_len(paths.to_multiset());
            }
        }
    } else {
        let earlier = targets.drop_last();
        lemma_every_request_counts_once(counts, key, earlier, path);
        assert(commands.drop_last() =~= commands_for(key, earlier));
        assert(commands.last() == command_for(key, targets.last()));
        assert(paths =~= paths_of(earlier).push(path_of(targets.last())));
        paths_of(earlier).to_multiset_ensures();
        lemma_carried_out_counts(
            carried_out_all(counts, commands_for(key, earlier)),
            commands.last(),
            path,
        );
    }
}

/// The count of a path grows by exactly N over N requests that all go to that
/// path, however they are interleaved with requests for other paths.
pub proof fn lemma_same_path_counts_add_up(
    counts: Map<Seq<char>, int>,
    key: Seq<char>,
    targets: Seq<Seq<char>>,
    path: Seq<char>,
)
    requires
        forall|i: int| 0 <= i < targets.len() ==> path_of(#[trigger] targets[i]) == path,
    ensures
        count_at(carried_out_all(counts, commands_for(key, targets)), path) == count_at(
            counts,
            path,
        ) + targets.len(),
{
    lemma_every_request_counts_once(counts, key, targets, path);
    lemma_count_of_constant(paths_of(targets), path);
}

/// A sequence that holds `value` at every place holds it as often as it is
/// long.
proof fn lemma_count_of_constant(values: Seq<Seq<char>>, value: Seq<char>)
    requires
        forall|i: int| 0 <= i < values.len() ==> #[trigger] values[i] == value,
    ensures
        values.to_multiset().count(value) == values.len(),
    decreases values.len(),
{
    values.to_multiset_ensures();
    if values.len() == 0 {
        if values.to_multiset().count(value) > 0 {
            vstd::multiset::lemma_multiset_empty_len(values.to_multiset());
        }
    } else {
        let earlier = values.drop_last();
        lemma_count_of_constant(earlier, value);
        assert(values =~= earlier.push(value));
        earlier.to_multiset_ensures();
    }
}

/// The order in which the store carries out the commands of concurrent
/// requests makes no difference to any count: two runs of the same requests
/// end with the same counts.
pub proof fn lemma_order_is_immaterial(
    counts: Map<Seq<char>, int>,
    key: Seq<char>,
    one_order: Seq<Seq<char>>,
    other_order: Seq<Seq<char>>,
    path: Seq<char>,
)
    requires
        paths_of(one_order).to_multiset() == paths_of(other_order).to_multiset(),
    ensures
        count_at(carried_out_all(counts, commands_for(key, one_order)), path) == count_at(
            carried_out_all(counts, commands_for(key, other_order)),
            path,
        ),
{
    lemma_every_request_counts_once(counts, key, one_order, path);
    lemma_every_request_counts_once(counts, key, other_order, path);
}

} // verus!
