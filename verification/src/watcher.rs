//! From raw file-system notifications to logical graph events.
//!
//! The operating system reports a kind of change and the paths it touched. The
//! caller looks at each path that matters (see [`paths_to_observe`]), reads what is
//! on disk at that moment, and hands the observations over; [`translate`] turns them
//! into the deduplicated stream of [`GraphEvent`]s that viewers are told about.

use crate::names::{is_dot_file, is_dot_name};
use vstd::prelude::*;

verus! {

/// The timestamp reported when a file's modification time cannot be read.
pub const EPOCH: u64 = 0;

/// The kind of a raw notification, as far as the classification looks at it.
#[derive(Clone, Copy, PartialEq, Eq, Structural, Debug)]
pub enum RawEventKind {
    /// A file appeared.
    Create,
    /// A file was renamed; writers publish a finished graph by renaming it into place.
    Rename,
    /// A file was written to in place.
    Modify,
    /// A file disappeared.
    Remove,
    /// Anything else: accesses, metadata, unknown kinds.
    Other,
}

/// What a raw notification means for a graph file.
#[derive(Clone, Copy, PartialEq, Eq, Structural, Debug)]
pub enum Change {
    /// The file is new, or newly complete.
    Added,
    /// The file is gone.
    Removed,
}

impl RawEventKind {
    /// Creation and renaming announce a graph, removal withdraws one, and writes in
    /// place announce nothing: a half-written file is not a graph.
    pub open spec fn change_of(self) -> Option<Change> {
        match self {
            RawEventKind::Create | RawEventKind::Rename => Some(Change::Added),
            RawEventKind::Remove => Some(Change::Removed),
            RawEventKind::Modify | RawEventKind::Other => None,
        }
    }

    /// The logical change behind this kind of notification, if there is one.
    pub fn change(self) -> (r: Option<Change>)
        ensures
            r == self.change_of(),
    {
        match self {
            RawEventKind::Create | RawEventKind::Rename => Some(Change::Added),
            RawEventKind::Remove => Some(Change::Removed),
            RawEventKind::Modify | RawEventKind::Other => None,
        }
    }
}

/// What was found on disk for one path of a notification, read when the
/// notification is handled and not cached from the notification itself.
#[derive(Clone, PartialEq, Eq, Debug)]
pub struct Observation {
    /// The path relative to the watched directory.
    pub name: String,
    /// The whole content, or `None` when the file could not be read.
    pub content: Option<String>,
    /// The modification time in milliseconds since the epoch, or `None` when the
    /// metadata could not be read.
    pub modified: Option<u64>,
}

/// The mathematical content of an [`Observation`].
pub ghost struct ObservationView {
    pub name: Seq<char>,
    pub content: Option<Seq<char>>,
    pub modified: Option<u64>,
}

impl View for Observation {
    type V = ObservationView;

    open spec fn view(&self) -> ObservationView {
        ObservationView {
            name: self.name@,
            content: match self.content {
                Some(c) => Some(c@),
                None => None,
            },
            modified: self.modified,
        }
    }
}

/// A logical event on one graph file.
#[derive(Clone, PartialEq, Eq, Debug)]
pub enum GraphEvent {
    /// A graph appeared under `name` with the given non-empty content.
    Added { name: String, content: String, timestamp: u64 },
    /// The graph under `name` disappeared.
    Removed { name: String, timestamp: u64 },
}

/// The mathematical content of a [`GraphEvent`].
pub ghost enum GraphEventView {
    Added { name: Seq<char>, content: Seq<char>, timestamp: u64 },
    Removed { name: Seq<char>, timestamp: u64 },
}

impl View for GraphEvent {
    type V = GraphEventView;

    open spec fn view(&self) -> GraphEventView {
        match self {
            GraphEvent::Added { name, content, timestamp } => GraphEventView::Added {
                name: name@,
                content: content@,
                timestamp: *timestamp,
            },
            GraphEvent::Removed { name, timestamp } => GraphEventView::Removed {
                name: name@,
                timestamp: *timestamp,
            },
        }
    }
}

impl GraphEventView {
    /// The name of the file the event is about.
    pub open spec fn name(self) -> Seq<char> {
        match self {
            GraphEventView::Added { name, .. } => name,
            GraphEventView::Removed { name, .. } => name,
        }
    }

    /// The timestamp the event carries.
    pub open spec fn timestamp(self) -> u64 {
        match self {
            GraphEventView::Added { timestamp, .. } => timestamp,
            GraphEventView::Removed { timestamp, .. } => timestamp,
        }
    }
}

/// The views of a sequence of events, in order.
pub open spec fn event_views(events: Seq<GraphEvent>) -> Seq<GraphEventView> {
    events.map_values(|e: GraphEvent| e@)
}

/// The views of a sequence of observations, in order.
pub open spec fn observation_views(observations: Seq<Observation>) -> Seq<ObservationView> {
    observations.map_values(|o: Observation| o@)
}

/// The timestamp to report for a modification time that may be missing.
pub open spec fn stamp(modified: Option<u64>) -> u64 {
    match modified {
        Some(t) => t,
        None => EPOCH,
    }
}

/// The event, if any, that one observation gives rise to under a notification of
/// the given kind.
///
/// Only graph files count. An addition is reported with the content found on disk,
/// and only if that content could be read and is not empty: an unreadable or empty
/// file is taken to be in the middle of being written, and a later notification
/// will announce it. A removal is always reported, with the epoch as its timestamp
/// when the metadata is gone with the file.
pub open spec fn reported(kind: RawEventKind, o: ObservationView) -> Option<GraphEventView> {
    if !is_dot_name(o.name) {
        None
    } else {
        match kind.change_of() {
            Some(Change::Added) => match o.content {
                Some(content) if content.len() > 0 => Some(
                    GraphEventView::Added { name: o.name, content, timestamp: stamp(o.modified) },
                ),
                _ => None,
            },
            Some(Change::Removed) => Some(
                GraphEventView::Removed { name: o.name, timestamp: stamp(o.modified) },
            ),
            None => None,
        }
    }
}

/// The events that a notification of the given kind gives rise to: one for each
/// observation that is reported, in the order of the observations.
pub open spec fn translated(kind: RawEventKind, observations: Seq<ObservationView>) -> Seq<
    GraphEventView,
> {
    observations.filter_map(|o: ObservationView| reported(kind, o))
}

/// The positions, in increasing order, of the paths that have to be looked at on
/// disk to handle a notification: the graph files, if the kind of the notification
/// means a change at all.
pub open spec fn observed(kind: RawEventKind, paths: Seq<Seq<char>>) -> Seq<int> {
    if kind.change_of() is None {
        Seq::empty()
    } else {
        Seq::new(paths.len(), |i: int| i).filter(|i: int| is_dot_name(paths[i]))
    }
}

/// Selects the paths of a notification that the caller has to observe.
pub fn paths_to_observe(kind: RawEventKind, paths: &Vec<String>) -> (r: Vec<usize>)
    ensures
        r@.map_values(|i: usize| i as int) == observed(
            kind,
            paths@.map_values(|p: String| p@),
        ),
{
    let ghost names = paths@.map_values(|p: String| p@);
    let ghost all = Seq::new(names.len(), |i: int| i);
    let ghost pred = |i: int| is_dot_name(names[i]);
    let mut r: Vec<usize> = Vec::new();
    if kind.change().is_none() {
        assert(r@.map_values(|i: usize| i as int) =~= Seq::<int>::empty());
        return r;
    }
    let mut i: usize = 0;
    while i < paths.len()
        invariant
            i <= paths.len(),
            names == paths@.map_values(|p: String| p@),
            all == Seq::new(names.len(), |i: int| i),
            pred == |i: int| is_dot_name(names[i]),
            r@.map_values(|i: usize| i as int) == all.take(i as int).filter(pred),
        decreases paths.len() - i,
    {
        proof {
            reveal(Seq::filter);
            assert(all.take(i + 1).drop_last() =~= all.take(i as int));
            assert(all.take(i + 1).last() == i);
        }
        let ghost before = r@.map_values(|i: usize| i as int);
        if is_dot_file(paths[i].as_str()) {
            r.push(i);
            assert(r@.map_values(|i: usize| i as int) =~= before.push(i as int));
        }
        i += 1;
    }
    assert(all.take(i as int) =~= all);
    r
}

/// Turns one observation into the event it gives rise to, if any.
pub fn graph_event(kind: RawEventKind, observation: Observation) -> (r: Option<GraphEvent>)
    ensures
        match r {
            Some(event) => reported(kind, observation@) == Some(event@),
            None => reported(kind, observation@) is None,
        },
        kind is Modify ==> r is None,
        observation@.content == Some(Seq::<char>::empty()) ==> !(r matches Some(
            GraphEvent::Added { .. },
        )),
{
    if !is_dot_file(observation.name.as_str()) {
        return None;
    }
    let timestamp = match observation.modified {
        Some(t) => t,
        None => EPOCH,
    };
    match kind.change() {
        Some(Change::Added) => match observation.content {
            Some(content) => {
                if content.as_str().unicode_len() > 0 {
                    Some(GraphEvent::Added { name: observation.name, content, timestamp })
                } else {
                    None
                }
            },
            None => None,
        },
        Some(Change::Removed) => Some(GraphEvent::Removed { name: observation.name, timestamp }),
        None => None,
    }
}

/// Turns the observations made for one notification into graph events.
pub fn translate(kind: RawEventKind, observations: Vec<Observation>) -> (events: Vec<GraphEvent>)
    ensures
        event_views(events@) == translated(kind, observation_views(observations@)),
{
    let ghost input = observation_views(observations@);
    let ghost rule = |o: ObservationView| reported(kind, o);
    let mut events: Vec<GraphEvent> = Vec::new();
    assert(event_views(events@) =~= input.take(0).filter_map(rule));
    for observation in it: observations
        invariant
            input == observation_views(observations@),
            rule == |o: ObservationView| reported(kind, o),
            event_views(events@) == input.take(it.index() as int).filter_map(rule),
    {
        let ghost before = event_views(events@);
        proof {
            input.lemma_filter_map_take_succ(rule, it.index() as int);
        }
        match graph_event(kind, observation) {
            Some(event) => {
                events.push(event);
                assert(event_views(events@) =~= before + seq![event@]);
            },
            None => {},
        }
    }
    assert(input.take(input.len() as int) =~= input);
    events
}

/// Whether the file could be read and was not empty.
pub open spec fn has_content(o: ObservationView) -> bool {
    o.content is Some && o.content->0.len() > 0
}

/// The events about one file, in order.
pub open spec fn about(events: Seq<GraphEventView>, name: Seq<char>) -> Seq<GraphEventView> {
    events.filter(|e: GraphEventView| e.name() == name)
}

/// The observations of one file, in order.
pub open spec fn of_file(observations: Seq<ObservationView>, name: Seq<char>) -> Seq<
    ObservationView,
> {
    observations.filter(|o: ObservationView| o.name == name)
}

/// Law of the classification, one change at a time. A creation or renaming of a
/// graph file whose content could be read and is not empty gives exactly one
/// `Added` event with what was found on disk; a removal of a graph file gives
/// exactly one `Removed` event; everything else gives no event at all.
pub proof fn lemma_one_event_per_change(kind: RawEventKind, o: ObservationView)
    ensures
        translated(kind, seq![o]) == match reported(kind, o) {
            Some(event) => seq![event],
            None => Seq::empty(),
        },
        is_dot_name(o.name) && (kind is Create || kind is Rename) && has_content(o) ==> reported(
            kind,
            o,
        ) == Some(
            GraphEventView::Added {
                name: o.name,
                content: o.content->0,
                timestamp: stamp(o.modified),
            },
        ),
        is_dot_name(o.name) && kind is Remove ==> reported(kind, o) == Some(
            GraphEventView::Removed { name: o.name, timestamp: stamp(o.modified) },
        ),
        !is_dot_name(o.name) || kind is Modify || kind is Other || ((kind is Create
            || kind is Rename) && !has_content(o)) ==> reported(kind, o) is None,
{
    Seq::lemma_filter_map_singleton(o, |o: ObservationView| reported(kind, o));
}

/// The events of two runs of observations, one after the other, are the events of
/// the first run followed by the events of the second.
pub proof fn lemma_translated_concat(
    kind: RawEventKind,
    a: Seq<ObservationView>,
    b: Seq<ObservationView>,
)
    ensures
        translated(kind, a + b) == translated(kind, a) + translated(kind, b),
    decreases b.len(),
{
    if b.len() == 0 {
        assert(a + b =~= a);
        assert(translated(kind, a) + translated(kind, b) =~= translated(kind, a));
    } else {
        lemma_translated_concat(kind, a, b.drop_last());
        assert((a + b).drop_last() =~= a + b.drop_last());
        assert((a + b).last() == b.last());
        match reported(kind, b.last()) {
            Some(event) => {
                assert(translated(kind, a + b) =~= translated(kind, a) + translated(kind, b));
            },
            None => {},
        }
    }
}

/// Law of writes in place. A notification that a file was written to, without a
/// renaming, gives no event, whatever is found on disk; nor does a notification of
/// any kind that is neither creation, renaming nor removal.
pub proof fn lemma_modify_is_silent(kind: RawEventKind, observations: Seq<ObservationView>)
    requires
        kind is Modify || kind is Other,
    ensures
        translated(kind, observations) == Seq::<GraphEventView>::empty(),
    decreases observations.len(),
{
    if observations.len() > 0 {
        lemma_modify_is_silent(kind, observations.drop_last());
    }
}

/// Law of the content. Every event comes from an observation of a graph file, and
/// carries its name and timestamp; an `Added` event carries its content, which is
/// never empty. So a file that is empty or cannot be read is never announced.
pub proof fn lemma_event_origin(kind: RawEventKind, observations: Seq<ObservationView>, i: int) -> (at:
    int)
    requires
        0 <= i < translated(kind, observations).len(),
    ensures
        0 <= at < observations.len(),
        reported(kind, observations[at]) == Some(translated(kind, observations)[i]),
        is_dot_name(translated(kind, observations)[i].name()),
        translated(kind, observations)[i].name() == observations[at].name,
        translated(kind, observations)[i].timestamp() == stamp(observations[at].modified),
        translated(kind, observations)[i] matches GraphEventView::Added { content, .. }
            ==> content.len() > 0 && observations[at].content == Some(content),
{
    let events = translated(kind, observations);
    let rule = |o: ObservationView| reported(kind, o);
    assert(events.contains(events[i]));
    observations.lemma_filter_map_contains(rule, events[i]);
    let t = choose|t: ObservationView| #[trigger]
        observations.contains(t) && rule(t) == Some(events[i]);
    choose|at: int| 0 <= at < observations.len() && observations[at] == t
}

/// Law of the empty file. A graph file that is empty, or that cannot be read,
/// is never announced as added, though it has the right extension; and no
/// sequence of such observations gives an `Added` event.
pub proof fn lemma_empty_file_is_silent(kind: RawEventKind, observations: Seq<ObservationView>)
    requires
        forall|k: int| 0 <= k < observations.len() ==> !has_content(#[trigger] observations[k]),
    ensures
        forall|i: int|
            0 <= i < translated(kind, observations).len() ==> !(#[trigger] translated(
                kind,
                observations,
            )[i] is Added),
{
    assert forall|i: int| 0 <= i < translated(kind, observations).len() implies !(
    #[trigger] translated(kind, observations)[i] is Added) by {
        let at = lemma_event_origin(kind, observations, i);
        assert(!has_content(observations[at]));
    }
}

/// Events come in the order of the observations they come from: if the
/// observations are in ascending order of time, so are the events.
pub proof fn lemma_translated_keeps_order(kind: RawEventKind, observations: Seq<ObservationView>)
    requires
        forall|i: int, j: int|
            0 <= i <= j < observations.len() ==> stamp(observations[i].modified) <= stamp(
                observations[j].modified,
            ),
    ensures
        forall|i: int, j: int|
            0 <= i <= j < translated(kind, observations).len() ==> translated(
                kind,
                observations,
            )[i].timestamp() <= translated(kind, observations)[j].timestamp(),
    decreases observations.len(),
{
    if observations.len() > 0 {
        let rest = observations.drop_last();
        let last = observations.last();
        lemma_translated_keeps_order(kind, rest);
        let events = translated(kind, observations);
        let before = translated(kind, rest);
        assert forall|i: int, j: int| 0 <= i <= j < events.len() implies events[i].timestamp()
            <= events[j].timestamp() by {
            if j >= before.len() && i < before.len() {
                let at = lemma_event_origin(kind, rest, i);
                assert(events[i] == before[i]);
                assert(rest[at] == observations[at]);
            } else if j < before.len() {
                assert(events[i] == before[i] && events[j] == before[j]);
            }
        }
    }
}

/// Law of the order per file. What the events say about one file is what the
/// observations of that file alone would have given, in the same order: events
/// about other files neither add to it nor reorder it.
pub proof fn lemma_per_file_order(
    kind: RawEventKind,
    observations: Seq<ObservationView>,
    name: Seq<char>,
)
    ensures
        about(translated(kind, observations), name) == translated(
            kind,
            of_file(observations, name),
        ),
    decreases observations.len(),
{
    reveal(Seq::filter);
    if observations.len() > 0 {
        let rest = observations.drop_last();
        let last = observations.last();
        lemma_per_file_order(kind, rest, name);
        let same_event = |e: GraphEventView| e.name() == name;
        match reported(kind, last) {
            Some(event) => {
                assert(translated(kind, observations) == translated(kind, rest) + seq![event]);
                assert((translated(kind, rest) + seq![event]) =~= translated(kind, rest).push(
                    event,
                ));
                assert(translated(kind, rest).push(event).drop_last() =~= translated(kind, rest));
                if last.name == name {
                    assert(of_file(observations, name) == of_file(rest, name).push(last));
                    assert(of_file(rest, name).push(last).drop_last() =~= of_file(rest, name));
                    assert(translated(kind, of_file(rest, name)) + seq![event] =~= translated(
                        kind,
                        of_file(rest, name),
                    ).push(event));
                }
            },
            None => {
                if last.name == name {
                    assert(of_file(observations, name) == of_file(rest, name).push(last));
                    assert(of_file(rest, name).push(last).drop_last() =~= of_file(rest, name));
                }
            },
        }
    }
}

} // verus!
