//! The catalog of graph files on disk, and its replay to a new viewer.
//!
//! A viewer that connects is told of every graph file that exists at that moment,
//! oldest first. The caller walks the watched directory and reads the files; the
//! order, the filter and the events are decided here.

use crate::watcher::{
    event_views, lemma_translated_concat, lemma_translated_keeps_order, observation_views,
    translate, translated, GraphEvent, GraphEventView, Observation, ObservationView, RawEventKind,
};
use vstd::prelude::*;

verus! {

/// A file found under the watched directory.
#[derive(Clone, PartialEq, Eq, Debug)]
pub struct CatalogEntry {
    /// The path relative to the watched directory.
    pub name: String,
    /// The modification time in milliseconds since the epoch.
    pub modified: u64,
    /// The whole content, or `None` when the file could not be read.
    pub content: Option<String>,
}

/// The mathematical content of a [`CatalogEntry`].
pub ghost struct CatalogEntryView {
    pub name: Seq<char>,
    pub modified: u64,
    pub content: Option<Seq<char>>,
}

impl View for CatalogEntry {
    type V = CatalogEntryView;

    open spec fn view(&self) -> CatalogEntryView {
        CatalogEntryView {
            name: self.name@,
            modified: self.modified,
            content: match self.content {
                Some(c) => Some(c@),
                None => None,
            },
        }
    }
}

/// The views of a sequence of entries, in order.
pub open spec fn entry_views(entries: Seq<CatalogEntry>) -> Seq<CatalogEntryView> {
    entries.map_values(|e: CatalogEntry| e@)
}

/// Whether the entries are in ascending order of modification time.
pub open spec fn ascending(entries: Seq<CatalogEntryView>) -> bool {
    forall|i: int, j: int| 0 <= i <= j < entries.len() ==> entries[i].modified <= entries[j].modified
}

/// `entry` put into `sorted` behind every entry that is not newer than it.
pub open spec fn placed(sorted: Seq<CatalogEntryView>, entry: CatalogEntryView) -> Seq<
    CatalogEntryView,
>
    decreases sorted.len(),
{
    if sorted.len() == 0 {
        seq![entry]
    } else if sorted.last().modified <= entry.modified {
        sorted.push(entry)
    } else {
        placed(sorted.drop_last(), entry).push(sorted.last())
    }
}

/// The entries oldest first; entries of the same age stay in the order they came in.
pub open spec fn by_age(entries: Seq<CatalogEntryView>) -> Seq<CatalogEntryView>
    decreases entries.len(),
{
    if entries.len() == 0 {
        entries
    } else {
        placed(by_age(entries.drop_last()), entries.last())
    }
}

/// What an entry of the catalog amounts to as an observation of the file.
pub open spec fn observation_of(entry: CatalogEntryView) -> ObservationView {
    ObservationView { name: entry.name, content: entry.content, modified: Some(entry.modified) }
}

/// What the entries of a catalog amount to as observations, in order.
pub open spec fn observations_of(entries: Seq<CatalogEntryView>) -> Seq<ObservationView> {
    entries.map_values(|e: CatalogEntryView| observation_of(e))
}

/// The events that replay a catalog: every graph file in it whose content could be
/// read and is not empty is announced as added, oldest first.
pub open spec fn replayed(catalog: Seq<CatalogEntryView>) -> Seq<GraphEventView> {
    translated(RawEventKind::Create, observations_of(by_age(catalog)))
}

/// Where `placed` puts an entry: at the one position that has nothing newer before
/// it among the entries that follow, and something not newer right before it.
pub proof fn lemma_placed_at(sorted: Seq<CatalogEntryView>, entry: CatalogEntryView, at: int)
    requires
        0 <= at <= sorted.len(),
        forall|j: int| at <= j < sorted.len() ==> sorted[j].modified > entry.modified,
        at > 0 ==> sorted[at - 1].modified <= entry.modified,
    ensures
        placed(sorted, entry) == sorted.insert(at, entry),
    decreases sorted.len(),
{
    if sorted.len() == 0 {
        assert(seq![entry] =~= sorted.insert(at, entry));
    } else if sorted.last().modified <= entry.modified {
        assert(at == sorted.len());
        assert(sorted.push(entry) =~= sorted.insert(at, entry));
    } else {
        assert(at < sorted.len());
        lemma_placed_at(sorted.drop_last(), entry, at);
        assert(sorted.drop_last().insert(at, entry).push(sorted.last()) =~= sorted.insert(at, entry));
    }
}

/// `placed` adds one entry somewhere and moves none of the others.
pub proof fn lemma_placed_position(sorted: Seq<CatalogEntryView>, entry: CatalogEntryView) -> (at:
    int)
    ensures
        0 <= at <= sorted.len(),
        placed(sorted, entry) == sorted.insert(at, entry),
        forall|j: int| at <= j < sorted.len() ==> sorted[j].modified > entry.modified,
        at > 0 ==> sorted[at - 1].modified <= entry.modified,
    decreases sorted.len(),
{
    if sorted.len() == 0 {
        lemma_placed_at(sorted, entry, 0);
        0
    } else if sorted.last().modified <= entry.modified {
        lemma_placed_at(sorted, entry, sorted.len() as int);
        sorted.len() as int
    } else {
        let at = lemma_placed_position(sorted.drop_last(), entry);
        assert forall|j: int| at <= j < sorted.len() implies sorted[j].modified
            > entry.modified by {
            if j < sorted.len() - 1 {
                assert(sorted[j] == sorted.drop_last()[j]);
            }
        }
        assert(at > 0 ==> sorted[at - 1] == sorted.drop_last()[at - 1]);
        lemma_placed_at(sorted, entry, at);
        at
    }
}

/// The sorted catalog is in ascending order of modification time.
pub proof fn lemma_by_age_ascending(entries: Seq<CatalogEntryView>)
    ensures
        ascending(by_age(entries)),
        by_age(entries).len() == entries.len(),
    decreases entries.len(),
{
    if entries.len() > 0 {
        let rest = by_age(entries.drop_last());
        lemma_by_age_ascending(entries.drop_last());
        let at = lemma_placed_position(rest, entries.last());
        let all = rest.insert(at, entries.last());
        assert forall|i: int, j: int| 0 <= i <= j < all.len() implies all[i].modified
            <= all[j].modified by {
            if i < at && j > at {
                assert(all[i] == rest[i] && all[j] == rest[j - 1]);
            } else if i < at && j == at {
                assert(rest[i].modified <= rest[at - 1].modified);
            } else if i == at && j > at {
                assert(all[j] == rest[j - 1]);
            } else if i > at {
                assert(all[i] == rest[i - 1] && all[j] == rest[j - 1]);
            }
        }
    }
}

/// The sorted catalog holds the entries of the catalog, each as often as it
/// occurred: sorting drops nothing and invents nothing.
pub proof fn lemma_by_age_permutes(entries: Seq<CatalogEntryView>)
    ensures
        by_age(entries).to_multiset() == entries.to_multiset(),
    decreases entries.len(),
{
    broadcast use vstd::seq_lib::group_to_multiset_ensures;

    if entries.len() > 0 {
        let rest = by_age(entries.drop_last());
        let last = entries.last();
        lemma_by_age_permutes(entries.drop_last());
        let at = lemma_placed_position(rest, last);
        assert(rest.insert(at, last).to_multiset() == rest.to_multiset().insert(last));
        assert(entries.drop_last().push(last) =~= entries);
    }
}

/// Entries of the same age come out of the sort in the order they went in.
pub proof fn lemma_by_age_stable(entries: Seq<CatalogEntryView>, age: u64)
    ensures
        by_age(entries).filter(|e: CatalogEntryView| e.modified == age) == entries.filter(
            |e: CatalogEntryView| e.modified == age,
        ),
    decreases entries.len(),
{
    let same = |e: CatalogEntryView| e.modified == age;
    reveal(Seq::filter);
    if entries.len() > 0 {
        let rest = by_age(entries.drop_last());
        let last = entries.last();
        lemma_by_age_stable(entries.drop_last(), age);
        lemma_by_age_ascending(entries.drop_last());
        let at = lemma_placed_position(rest, last);
        let head = rest.subrange(0, at);
        let tail = rest.subrange(at, rest.len() as int);
        assert(rest =~= head + tail);
        assert(rest.insert(at, last) =~= head.push(last) + tail);
        Seq::filter_distributes_over_add(head, tail, same);
        Seq::filter_distributes_over_add(head.push(last), tail, same);
        assert(head.push(last).drop_last() =~= head);
        if same(last) {
            // Everything behind the new entry is newer, so nothing there has its age.
            assert forall|k: int| 0 <= k < tail.len() implies !same(#[trigger] tail[k]) by {
                assert(tail[k] == rest[at + k]);
            }
            lemma_filter_none(tail, same);
            assert(head.filter(same) + tail.filter(same) =~= head.filter(same));
            assert(head.push(last).filter(same) + tail.filter(same) =~= head.filter(same).push(last));
        }
    }
}

/// A filter that no element passes leaves nothing.
proof fn lemma_filter_none<A>(s: Seq<A>, pred: spec_fn(A) -> bool)
    requires
        forall|k: int| 0 <= k < s.len() ==> !pred(#[trigger] s[k]),
    ensures
        s.filter(pred) == Seq::<A>::empty(),
    decreases s.len(),
{
    reveal(Seq::filter);
    if s.len() > 0 {
        assert forall|k: int| 0 <= k < s.drop_last().len() implies !pred(
            #[trigger] s.drop_last()[k],
        ) by {
            assert(s.drop_last()[k] == s[k]);
        }
        lemma_filter_none(s.drop_last(), pred);
    }
}

/// Law of the replay order. The catalog is replayed oldest first: the timestamps
/// of the replayed events never go down.
pub proof fn lemma_replay_oldest_first(catalog: Seq<CatalogEntryView>)
    ensures
        forall|i: int, j: int|
            0 <= i <= j < replayed(catalog).len() ==> replayed(catalog)[i].timestamp() <= replayed(
                catalog,
            )[j].timestamp(),
{
    lemma_by_age_ascending(catalog);
    lemma_translated_keeps_order(RawEventKind::Create, observations_of(by_age(catalog)));
}

/// Law of the whole catalog. The replay announces the same files as one creation
/// notification for each entry of the catalog would, each as often: every graph
/// file that could be read and is not empty, and nothing else. Only the order is
/// the replay's own.
pub proof fn lemma_replay_is_whole(catalog: Seq<CatalogEntryView>)
    ensures
        replayed(catalog).to_multiset() == translated(
            RawEventKind::Create,
            observations_of(catalog),
        ).to_multiset(),
    decreases catalog.len(),
{
    let kind = RawEventKind::Create;
    if catalog.len() > 0 {
        let rest = catalog.drop_last();
        let last = catalog.last();
        lemma_replay_is_whole(rest);
        let sorted = by_age(rest);
        let at = lemma_placed_position(sorted, last);
        let observations = observations_of(sorted);
        let o = observation_of(last);
        let head = observations.take(at);
        let tail = observations.skip(at);
        assert(observations_of(sorted.insert(at, last)) =~= head + seq![o] + tail);
        assert(observations =~= head + tail);
        assert(observations_of(catalog) =~= observations_of(rest) + seq![o]);
        lemma_translated_concat(kind, head + seq![o], tail);
        lemma_translated_concat(kind, head, seq![o]);
        lemma_translated_concat(kind, head, tail);
        lemma_translated_concat(kind, observations_of(rest), seq![o]);
        let a = translated(kind, head);
        let e = translated(kind, seq![o]);
        let b = translated(kind, tail);
        vstd::seq_lib::lemma_multiset_commutative(a + e, b);
        vstd::seq_lib::lemma_multiset_commutative(a, e);
        vstd::seq_lib::lemma_multiset_commutative(a, b);
        vstd::seq_lib::lemma_multiset_commutative(translated(kind, observations_of(rest)), e);
        assert(replayed(catalog).to_multiset() =~= a.to_multiset().add(b.to_multiset()).add(
            e.to_multiset(),
        ));
    }
}

/// Sorts the entries oldest first, keeping entries of the same age in their order.
pub fn sort_by_age(entries: Vec<CatalogEntry>) -> (sorted: Vec<CatalogEntry>)
    ensures
        entry_views(sorted@) == by_age(entry_views(entries@)),
{
    let ghost input = entry_views(entries@);
    let mut sorted: Vec<CatalogEntry> = Vec::new();
    assert(entry_views(sorted@) =~= by_age(input.take(0)));
    for entry in it: entries
        invariant
            input == entry_views(entries@),
            entry_views(sorted@) == by_age(input.take(it.index() as int)),
    {
        let ghost before = entry_views(sorted@);
        let mut at = sorted.len();
        while at > 0 && sorted[at - 1].modified > entry.modified
            invariant
                at <= sorted.len(),
                before == entry_views(sorted@),
                forall|j: int| at <= j < sorted.len() ==> before[j].modified > entry@.modified,
            decreases at,
        {
            at -= 1;
        }
        proof {
            lemma_placed_at(before, entry@, at as int);
            assert(input.take(it.index() + 1).drop_last() =~= input.take(it.index() as int));
        }
        sorted.insert(at, entry);
        assert(entry_views(sorted@) =~= before.insert(at as int, entry@));
    }
    assert(input.take(input.len() as int) =~= input);
    sorted
}

/// The events that replay the catalog to a new viewer.
pub fn replay(catalog: Vec<CatalogEntry>) -> (events: Vec<GraphEvent>)
    ensures
        event_views(events@) == replayed(entry_views(catalog@)),
{
    let sorted = sort_by_age(catalog);
    let ghost wanted = observations_of(by_age(entry_views(catalog@)));
    let mut observations: Vec<Observation> = Vec::new();
    for entry in it: sorted
        invariant
            entry_views(sorted@) == by_age(entry_views(catalog@)),
            wanted == observations_of(by_age(entry_views(catalog@))),
            observation_views(observations@) == wanted.take(it.index() as int),
    {
        let ghost before = observation_views(observations@);
        let observation = Observation {
            name: entry.name,
            content: entry.content,
            modified: Some(entry.modified),
        };
        assert(observation@ == observation_of(entry@));
        assert(entry@ == entry_views(sorted@)[it.index() as int]);
        observations.push(observation);
        assert(observation_views(observations@) =~= before.push(observation@));
    }
    assert(wanted.take(wanted.len() as int) =~= wanted);
    translate(RawEventKind::Create, observations)
}

} // verus!
