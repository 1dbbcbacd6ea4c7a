//! The hub: who is sent which frames, for everything that can happen.
//!
//! Four things happen to a running server: a session connects, a session
//! disconnects, the file system reports a change, a session sends a frame. For each
//! of them the hub updates the registry and hands back a [`Fanout`]: the frames to
//! send, in order, and the sessions to send each of them to. The caller carries the
//! fan-outs out in the order in which it obtained them.
//!
//! [`Step`], [`next`] and [`fanout`] say the same as mathematics, and [`inbox`] says
//! what one session receives over a whole run. The laws at the end of the file are
//! stated over them.

use crate::catalog::{entry_views, replay, replayed, CatalogEntry, CatalogEntryView};
use crate::registry::{ClientHandle, ClientRegistry, ClientType, RegistryError, RegistryView};
use crate::watcher::{
    about, lemma_per_file_order, observation_views, of_file, translate, translated,
    GraphEventView, Observation, ObservationView, RawEventKind,
};
use crate::wire::{
    decoded, encode_events, encoded, frame_views, frames_of, IncomingMessage,
    IncomingMessageType, OutboundMessage, OutboundMessageView, ProtocolError, TextMessage,
};
use vstd::prelude::*;

verus! {

/// Frames to deliver: each frame of `frames`, in order, to each session of `to`.
/// Delivery to one session does not wait for, or depend on, delivery to another.
#[derive(Clone, PartialEq, Eq, Debug)]
pub struct Fanout {
    pub to: Vec<ClientHandle>,
    pub frames: Vec<TextMessage>,
}

/// The mathematical content of a [`Fanout`].
pub ghost struct FanoutView {
    pub to: Seq<ClientHandle>,
    pub frames: Seq<Seq<char>>,
}

impl View for Fanout {
    type V = FanoutView;

    open spec fn view(&self) -> FanoutView {
        FanoutView { to: self.to@, frames: frame_views(self.frames@) }
    }
}

impl FanoutView {
    /// Nothing, to nobody.
    pub open spec fn nothing() -> FanoutView {
        FanoutView { to: Seq::empty(), frames: Seq::empty() }
    }

    /// The frames that `handle` is sent by this fan-out, in order.
    pub open spec fn received_by(self, handle: ClientHandle) -> Seq<Seq<char>> {
        if self.to.contains(handle) {
            self.frames
        } else {
            Seq::empty()
        }
    }
}

impl Fanout {
    /// Nothing, to nobody.
    pub fn nothing() -> (r: Fanout)
        ensures
            r@ == FanoutView::nothing(),
    {
        let r = Fanout { to: Vec::new(), frames: Vec::new() };
        assert(r@.frames =~= Seq::<Seq<char>>::empty());
        r
    }
}

/// One thing that happens to a running server.
pub ghost enum Step {
    /// A session connects under a role; `catalog` is what was on disk then.
    Connect { handle: ClientHandle, role: ClientType, catalog: Seq<CatalogEntryView> },
    /// A session disconnects.
    Disconnect { handle: ClientHandle },
    /// The file system reports a change; `observations` is what was found on disk
    /// for the paths it names.
    Notify { kind: RawEventKind, observations: Seq<ObservationView> },
    /// A session sends a frame.
    Receive { text: Seq<char> },
}

/// The catalog replay for one new viewer.
pub open spec fn listed(handle: ClientHandle, catalog: Seq<CatalogEntryView>) -> FanoutView {
    FanoutView { to: seq![handle], frames: frames_of(replayed(catalog)) }
}

/// One frame for every session of a role.
pub open spec fn broadcast(registry: RegistryView, frame: Seq<char>, role: ClientType) -> FanoutView {
    FanoutView { to: registry.members(role), frames: seq![frame] }
}

/// What the server does about a decoded frame from a session: a snapshot request
/// is passed on to every snapshot trigger, and nothing else has any effect.
pub open spec fn reaction(
    registry: RegistryView,
    message: Result<IncomingMessage, ProtocolError>,
) -> FanoutView {
    match message {
        Ok(IncomingMessage { type_: IncomingMessageType::Snapshot }) => broadcast(
            registry,
            encoded(OutboundMessageView::Snapshot),
            ClientType::Snapshot,
        ),
        _ => FanoutView::nothing(),
    }
}

/// The registry after a step.
pub open spec fn next(registry: RegistryView, step: Step) -> RegistryView {
    match step {
        Step::Connect { handle, role, .. } => registry.with_client(handle, role),
        Step::Disconnect { handle } => registry.without_client(handle),
        Step::Notify { .. } => registry,
        Step::Receive { .. } => registry,
    }
}

/// The frames that a step sends, and to whom.
pub open spec fn fanout(registry: RegistryView, step: Step) -> FanoutView {
    match step {
        Step::Connect { handle, role, catalog } => if registry.admits(handle, role)
            && role.wants_catalog() {
            listed(handle, catalog)
        } else {
            FanoutView::nothing()
        },
        Step::Disconnect { .. } => FanoutView::nothing(),
        Step::Notify { kind, observations } => FanoutView {
            to: registry.viewers,
            frames: frames_of(translated(kind, observations)),
        },
        Step::Receive { text } => reaction(registry, decoded(text)),
    }
}

/// The frames that `handle` receives, in order, while the server takes `steps`
/// one after the other, starting from `registry`.
pub open spec fn inbox(registry: RegistryView, steps: Seq<Step>, handle: ClientHandle) -> Seq<
    Seq<char>,
>
    decreases steps.len(),
{
    if steps.len() == 0 {
        Seq::empty()
    } else {
        fanout(registry, steps.first()).received_by(handle) + inbox(
            next(registry, steps.first()),
            steps.drop_first(),
            handle,
        )
    }
}

/// The registry of sessions together with the policy on what to do when the last
/// of them leaves.
#[derive(Debug)]
pub struct Hub {
    registry: ClientRegistry,
    exit_on_socket_close: bool,
}

impl View for Hub {
    type V = RegistryView;

    closed spec fn view(&self) -> RegistryView {
        self.registry@
    }
}

impl Hub {
    /// Whether the process is to end when the last session has left.
    pub closed spec fn exits_when_empty(&self) -> bool {
        self.exit_on_socket_close
    }

    /// A hub without sessions. `exit_on_socket_close` is set for a process that was
    /// started to show one file or to open a browser; a long-running server leaves
    /// it unset.
    pub fn new(exit_on_socket_close: bool) -> (hub: Hub)
        ensures
            hub@ == RegistryView::empty(),
            hub@.wf(),
            hub.exits_when_empty() == exit_on_socket_close,
    {
        Hub { registry: ClientRegistry::new(), exit_on_socket_close }
    }

    /// The role under which `handle` is connected, if it is.
    pub fn role_of(&self, handle: ClientHandle) -> (role: Option<ClientType>)
        ensures
            role == self@.role_of(handle),
            self@.wf(),
    {
        self.registry.role_of(handle)
    }

    /// The catalog replay for `handle`: one frame for every graph file in
    /// `catalog` that could be read and is not empty, oldest first, addressed to
    /// that session alone.
    pub fn list_dots(handle: ClientHandle, catalog: Vec<CatalogEntry>) -> (r: Fanout)
        ensures
            r@ == listed(handle, entry_views(catalog@)),
    {
        let frames = encode_events(replay(catalog));
        let mut to: Vec<ClientHandle> = Vec::new();
        to.push(handle);
        assert(to@ =~= seq![handle]);
        Fanout { to, frames }
    }

    /// A session connects. `catalog` is the content of the watched directory, read
    /// by the caller before the call; it is looked at only for a role that receives
    /// it (see [`ClientType::receives_catalog`]).
    ///
    /// The session is registered, and a viewer is sent the catalog. Because both
    /// happen in this one step, the viewer has the whole catalog before any frame
    /// of a later step. A handle that is connected under the other role is refused
    /// and nothing changes.
    pub fn add_client(
        &mut self,
        handle: ClientHandle,
        client_type: ClientType,
        catalog: Vec<CatalogEntry>,
    ) -> (r: Result<Fanout, RegistryError>)
        ensures
            final(self).exits_when_empty() == old(self).exits_when_empty(),
            final(self)@.wf(),
            final(self)@ == next(
                old(self)@,
                Step::Connect { handle, role: client_type, catalog: entry_views(catalog@) },
            ),
            match r {
                Ok(sent) => old(self)@.admits(handle, client_type) && sent@ == fanout(
                    old(self)@,
                    Step::Connect { handle, role: client_type, catalog: entry_views(catalog@) },
                ),
                Err(e) => !old(self)@.admits(handle, client_type) && e
                    == RegistryError::RoleConflict,
            },
    {
        match self.registry.add_client(handle, client_type) {
            Err(e) => Err(e),
            Ok(()) => {
                if client_type.receives_catalog() {
                    Ok(Hub::list_dots(handle, catalog))
                } else {
                    Ok(Fanout::nothing())
                }
            },
        }
    }

    /// A session disconnects. It is taken out of the registry, under whichever role
    /// it was; the answer says whether the process is to end now, which it is when
    /// that is the policy and nobody is left.
    pub fn remove_client(&mut self, handle: ClientHandle) -> (exit: bool)
        ensures
            final(self).exits_when_empty() == old(self).exits_when_empty(),
            final(self)@.wf(),
            final(self)@ == next(old(self)@, Step::Disconnect { handle }),
            exit == (old(self).exits_when_empty() && final(self)@.is_empty()),
    {
        self.registry.remove_client(handle);
        self.exit_on_socket_close && self.registry.is_empty()
    }

    /// Hands one frame to every session of a role, and to no session of the other.
    pub fn send(&self, frame: TextMessage, client_type: ClientType) -> (sent: Fanout)
        ensures
            sent@ == broadcast(self@, frame@, client_type),
            self@.wf(),
    {
        let to = self.registry.recipients(client_type);
        let ghost text = frame@;
        let mut frames: Vec<TextMessage> = Vec::new();
        frames.push(frame);
        assert(frame_views(frames@) =~= seq![text]);
        Fanout { to, frames }
    }

    /// The file system reports a change of the given kind; `observations` is what
    /// the caller found on disk for the paths that matter. Every viewer is sent one
    /// frame for each graph event that the observations amount to.
    pub fn publish(&self, kind: RawEventKind, observations: Vec<Observation>) -> (sent: Fanout)
        ensures
            sent@ == fanout(
                self@,
                Step::Notify { kind, observations: observation_views(observations@) },
            ),
    {
        let frames = encode_events(translate(kind, observations));
        Fanout { to: self.registry.recipients(ClientType::Viewer), frames }
    }

    /// Acts on a decoded frame from a session.
    pub fn react(&self, message: Result<IncomingMessage, ProtocolError>) -> (sent: Fanout)
        ensures
            sent@ == reaction(self@, message),
    {
        match message {
            Ok(IncomingMessage { type_: IncomingMessageType::Snapshot }) => self.send(
                OutboundMessage::Snapshot.encode(),
                ClientType::Snapshot,
            ),
            _ => Fanout::nothing(),
        }
    }

    /// A session sends a frame. A frame that cannot be decoded is dropped: nothing
    /// is sent and the session stays connected.
    pub fn handle_text(&self, text: &str) -> (sent: Fanout)
        ensures
            sent@ == fanout(self@, Step::Receive { text: text@ }),
    {
        self.react(IncomingMessage::decode(text))
    }
}

/// A change notification as the watcher hands it over: the kind of change and
/// what was found on disk for its paths.
pub ghost struct Notification {
    pub kind: RawEventKind,
    pub observations: Seq<ObservationView>,
}

/// The steps that a sequence of notifications is to the server.
pub open spec fn notify_steps(notifications: Seq<Notification>) -> Seq<Step> {
    notifications.map_values(
        |n: Notification| Step::Notify { kind: n.kind, observations: n.observations },
    )
}

/// The graph events that a sequence of notifications amounts to: those of the
/// first notification, then those of the second, and so on.
pub open spec fn events_of(notifications: Seq<Notification>) -> Seq<GraphEventView>
    decreases notifications.len(),
{
    if notifications.len() == 0 {
        Seq::empty()
    } else {
        translated(notifications.first().kind, notifications.first().observations) + events_of(
            notifications.drop_first(),
        )
    }
}

/// The frames for two runs of events, one after the other, are the frames for the
/// first run followed by the frames for the second.
pub proof fn lemma_frames_of_concat(a: Seq<GraphEventView>, b: Seq<GraphEventView>)
    ensures
        frames_of(a + b) == frames_of(a) + frames_of(b),
{
    assert(frames_of(a + b) =~= frames_of(a) + frames_of(b));
}

/// Law of the event stream. Whatever the file system reports, in whatever order,
/// a session that is connected as a viewer all the while receives one frame for
/// each graph event that the reports amount to, in the order of the reports, and
/// nothing else; a session that is not a viewer receives nothing.
///
/// With [`crate::watcher::lemma_one_event_per_change`] this says that a viewer sees
/// exactly one `NewDot` for each creation or renaming of a graph file that could be
/// read, and exactly one `DotRemoved` for each removal.
pub proof fn lemma_viewer_stream(
    registry: RegistryView,
    handle: ClientHandle,
    notifications: Seq<Notification>,
)
    ensures
        registry.viewers.contains(handle) ==> inbox(registry, notify_steps(notifications), handle)
            == frames_of(events_of(notifications)),
        !registry.viewers.contains(handle) ==> inbox(registry, notify_steps(notifications), handle)
            == Seq::<Seq<char>>::empty(),
    decreases notifications.len(),
{
    let steps = notify_steps(notifications);
    if notifications.len() > 0 {
        let first = notifications.first();
        assert(steps.first() == Step::Notify { kind: first.kind, observations: first.observations });
        assert(steps.drop_first() =~= notify_steps(notifications.drop_first()));
        lemma_viewer_stream(registry, handle, notifications.drop_first());
        lemma_frames_of_concat(
            translated(first.kind, first.observations),
            events_of(notifications.drop_first()),
        );
    } else {
        assert(frames_of(events_of(notifications)) =~= Seq::<Seq<char>>::empty());
    }
}

/// A notification cut down to what it says about one file.
pub open spec fn only_file(notification: Notification, name: Seq<char>) -> Notification {
    Notification {
        kind: notification.kind,
        observations: of_file(notification.observations, name),
    }
}

/// Law of the order per file. What a viewer is told about one file, over any run
/// of notifications, is what the notifications say about that file alone, in the
/// order in which they came: what happens to other files in between changes
/// neither the events about this one nor their order.
pub proof fn lemma_stream_per_file(notifications: Seq<Notification>, name: Seq<char>)
    ensures
        about(events_of(notifications), name) == events_of(
            notifications.map_values(|n: Notification| only_file(n, name)),
        ),
    decreases notifications.len(),
{
    let cut = notifications.map_values(|n: Notification| only_file(n, name));
    if notifications.len() > 0 {
        let first = notifications.first();
        let rest = notifications.drop_first();
        lemma_stream_per_file(rest, name);
        lemma_per_file_order(first.kind, first.observations, name);
        Seq::filter_distributes_over_add(
            translated(first.kind, first.observations),
            events_of(rest),
            |e: GraphEventView| e.name() == name,
        );
        assert(cut.drop_first() =~= rest.map_values(|n: Notification| only_file(n, name)));
        assert(cut.first() == only_file(first, name));
    } else {
        reveal(Seq::filter);
    }
}

/// Law of the catalog replay. A session that connects as a viewer receives the
/// frames of the catalog replay first, whatever happens afterwards: everything that
/// later steps send to it comes behind them.
///
/// What the replay holds, and in which order, is stated by
/// [`crate::catalog::lemma_replay_oldest_first`] and
/// [`crate::catalog::lemma_replay_is_whole`].
pub proof fn lemma_new_viewer_gets_catalog_first(
    registry: RegistryView,
    handle: ClientHandle,
    catalog: Seq<CatalogEntryView>,
    later: Seq<Step>,
)
    requires
        registry.role_of(handle) is None,
    ensures
        inbox(
            registry,
            seq![Step::Connect { handle, role: ClientType::Viewer, catalog }] + later,
            handle,
        ) == frames_of(replayed(catalog)) + inbox(
            registry.with_client(handle, ClientType::Viewer),
            later,
            handle,
        ),
{
    let connect = Step::Connect { handle, role: ClientType::Viewer, catalog };
    let steps = seq![connect] + later;
    assert(steps.first() == connect);
    assert(steps.drop_first() =~= later);
    assert(seq![handle][0] == handle);
}

/// Law of the roles. A broadcast to one role reaches every session of that role,
/// once, and no session of the other role, nor anyone who is not connected.
pub proof fn lemma_broadcast_stays_in_role(
    registry: RegistryView,
    frame: Seq<char>,
    role: ClientType,
    handle: ClientHandle,
)
    requires
        registry.wf(),
    ensures
        broadcast(registry, frame, role).received_by(handle) == if registry.role_of(handle)
            == Some(role) {
            seq![frame]
        } else {
            Seq::<Seq<char>>::empty()
        },
{
}

/// Law of the snapshot request. When a session asks for a snapshot, every snapshot
/// trigger receives the one frame `{"type":"Snapshot"}`, and no viewer receives
/// anything.
pub proof fn lemma_snapshot_request(registry: RegistryView, text: Seq<char>, handle: ClientHandle)
    requires
        registry.wf(),
        decoded(text) == Ok::<IncomingMessage, ProtocolError>(
            IncomingMessage { type_: IncomingMessageType::Snapshot },
        ),
    ensures
        fanout(registry, Step::Receive { text }).received_by(handle) == if registry.role_of(handle)
            == Some(ClientType::Snapshot) {
            seq!["{\"type\":\"Snapshot\"}"@]
        } else {
            Seq::<Seq<char>>::empty()
        },
{
    lemma_broadcast_stays_in_role(
        registry,
        encoded(OutboundMessageView::Snapshot),
        ClientType::Snapshot,
        handle,
    );
}

/// Law of disconnecting. A second disconnect of the same session changes nothing.
pub proof fn lemma_disconnect_is_idempotent(registry: RegistryView, handle: ClientHandle)
    ensures
        next(next(registry, Step::Disconnect { handle }), Step::Disconnect { handle }) == next(
            registry,
            Step::Disconnect { handle },
        ),
{
    crate::registry::lemma_remove_is_idempotent(registry, handle);
}

/// Every step keeps the registry well-formed.
pub proof fn lemma_next_keeps_wf(registry: RegistryView, step: Step)
    requires
        registry.wf(),
    ensures
        next(registry, step).wf(),
{
    match step {
        Step::Connect { handle, role, .. } => {
            crate::registry::lemma_with_client(registry, handle, role);
        },
        Step::Disconnect { handle } => {
            crate::registry::lemma_without_client(registry, handle);
        },
        _ => {},
    }
}

/// A session that is not connected receives nothing until it connects.
pub proof fn lemma_stranger_receives_nothing(
    registry: RegistryView,
    handle: ClientHandle,
    step: Step,
)
    requires
        registry.role_of(handle) is None,
        !(step matches Step::Connect { handle: h, .. } && h == handle),
    ensures
        fanout(registry, step).received_by(handle) == Seq::<Seq<char>>::empty(),
{
    match step {
        Step::Connect { handle: other, role, catalog } => {
            assert(seq![other][0] == other);
        },
        _ => {},
    }
}

} // verus!
