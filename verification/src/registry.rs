//! The registry of connected sessions, by role.
//!
//! A session is known by its handle and has one role for as long as it is
//! connected: it is a viewer, which is told of graph files, or a snapshot trigger,
//! which is asked for fresh dumps. The registry keeps the handles of each role and
//! answers who is to receive a broadcast.

use vstd::prelude::*;

verus! {

/// The identity of one connection. Two handles are the same session exactly when
/// they are equal; the role is not part of the identity.
#[derive(Clone, Copy, PartialEq, Eq, Structural, Debug, Hash)]
pub struct ClientHandle(pub u64);

/// The role of a session.
#[derive(Clone, Copy, PartialEq, Eq, Structural, Debug)]
pub enum ClientType {
    /// A session that displays graphs.
    Viewer,
    /// A session of an instrumented process that can dump its graphs on request.
    Snapshot,
}

impl ClientType {
    /// Whether a session of this role is sent the catalog when it connects.
    pub open spec fn wants_catalog(self) -> bool {
        self == ClientType::Viewer
    }

    /// Tells whether a session of this role is sent the catalog when it connects.
    pub fn receives_catalog(self) -> (r: bool)
        ensures
            r == self.wants_catalog(),
    {
        match self {
            ClientType::Viewer => true,
            ClientType::Snapshot => false,
        }
    }
}

/// A refused registration.
#[derive(Clone, Copy, PartialEq, Eq, Structural, Debug)]
pub enum RegistryError {
    /// The handle is registered under the other role.
    RoleConflict,
}

/// `handles` without `handle`, the others in their order.
pub open spec fn without(handles: Seq<ClientHandle>, handle: ClientHandle) -> Seq<ClientHandle> {
    handles.filter(|h: ClientHandle| h != handle)
}

/// The content of a registry: the handles of each role, in the order in which they
/// were registered.
pub ghost struct RegistryView {
    pub viewers: Seq<ClientHandle>,
    pub snapshots: Seq<ClientHandle>,
}

impl RegistryView {
    /// The registry with nobody in it.
    pub open spec fn empty() -> RegistryView {
        RegistryView { viewers: Seq::empty(), snapshots: Seq::empty() }
    }

    /// No handle is registered twice, under one role or under both.
    pub open spec fn wf(self) -> bool {
        &&& self.viewers.no_duplicates()
        &&& self.snapshots.no_duplicates()
        &&& forall|h: ClientHandle| !(self.viewers.contains(h) && self.snapshots.contains(h))
    }

    /// The handles registered under a role.
    pub open spec fn members(self, role: ClientType) -> Seq<ClientHandle> {
        match role {
            ClientType::Viewer => self.viewers,
            ClientType::Snapshot => self.snapshots,
        }
    }

    /// The role under which a handle is registered, if it is.
    pub open spec fn role_of(self, handle: ClientHandle) -> Option<ClientType> {
        if self.viewers.contains(handle) {
            Some(ClientType::Viewer)
        } else if self.snapshots.contains(handle) {
            Some(ClientType::Snapshot)
        } else {
            None
        }
    }

    /// Whether nobody is registered, under either role.
    pub open spec fn is_empty(self) -> bool {
        self.viewers.len() == 0 && self.snapshots.len() == 0
    }

    /// Whether `handle` may be registered under `role`: it is not registered under
    /// the other one.
    pub open spec fn admits(self, handle: ClientHandle, role: ClientType) -> bool {
        self.role_of(handle) is None || self.role_of(handle) == Some(role)
    }

    /// The registry after `handle` is registered under `role`. A handle that is
    /// registered already stays where it is.
    pub open spec fn with_client(self, handle: ClientHandle, role: ClientType) -> RegistryView {
        if self.role_of(handle) is Some {
            self
        } else {
            match role {
                ClientType::Viewer => RegistryView { viewers: self.viewers.push(handle), ..self },
                ClientType::Snapshot => RegistryView {
                    snapshots: self.snapshots.push(handle),
                    ..self
                },
            }
        }
    }

    /// The registry after `handle` is taken out of both roles.
    pub open spec fn without_client(self, handle: ClientHandle) -> RegistryView {
        RegistryView {
            viewers: without(self.viewers, handle),
            snapshots: without(self.snapshots, handle),
        }
    }
}

/// Taking a handle out leaves exactly the other handles.
pub proof fn lemma_without_members(handles: Seq<ClientHandle>, handle: ClientHandle)
    ensures
        forall|h: ClientHandle|
            without(handles, handle).contains(h) <==> handles.contains(h) && h != handle,
        handles.no_duplicates() ==> without(handles, handle).no_duplicates(),
        !handles.contains(handle) ==> without(handles, handle) == handles,
        without(handles, handle).len() <= handles.len(),
    decreases handles.len(),
{
    reveal(Seq::filter);
    let keep = |h: ClientHandle| h != handle;
    if handles.len() > 0 {
        let rest = handles.drop_last();
        let last = handles.last();
        lemma_without_members(rest, handle);
        assert(rest.push(last) =~= handles);
        assert forall|h: ClientHandle|
            without(handles, handle).contains(h) <==> handles.contains(h) && h != handle by {
            if handles.contains(h) {
                let i = choose|i: int| 0 <= i < handles.len() && handles[i] == h;
                if i < rest.len() {
                    assert(rest[i] == h);
                }
            }
            if without(handles, handle).contains(h) {
                let i = choose|i: int|
                    0 <= i < without(handles, handle).len() && without(handles, handle)[i] == h;
                if i < without(rest, handle).len() {
                    assert(without(rest, handle)[i] == h);
                    assert(rest.contains(h));
                    let j = choose|j: int| 0 <= j < rest.len() && rest[j] == h;
                    assert(handles[j] == h);
                } else {
                    assert(h == last);
                    assert(handles[handles.len() - 1] == h);
                }
            }
            if handles.contains(h) && h != handle {
                if rest.contains(h) {
                    assert(without(rest, handle).contains(h));
                    let i = choose|i: int|
                        0 <= i < without(rest, handle).len() && without(rest, handle)[i] == h;
                    assert(without(handles, handle)[i] == h);
                } else {
                    assert(h == last);
                    assert(without(handles, handle)[without(rest, handle).len() as int] == h);
                }
            }
        }
        if handles.no_duplicates() {
            assert(rest.no_duplicates());
            if keep(last) {
                assert(!rest.contains(last)) by {
                    if rest.contains(last) {
                        let j = choose|j: int| 0 <= j < rest.len() && rest[j] == last;
                        assert(handles[j] == handles[handles.len() - 1]);
                    }
                }
                assert(!without(rest, handle).contains(last));
            }
        }
        if !handles.contains(handle) {
            assert(!rest.contains(handle)) by {
                if rest.contains(handle) {
                    let j = choose|j: int| 0 <= j < rest.len() && rest[j] == handle;
                    assert(handles[j] == handle);
                }
            }
            assert(last != handle) by {
                assert(handles[handles.len() - 1] == last);
            }
        }
    }
}

/// Taking a handle out keeps a registry well-formed and leaves the handle under
/// no role; every other handle keeps its role.
pub proof fn lemma_without_client(registry: RegistryView, handle: ClientHandle)
    requires
        registry.wf(),
    ensures
        registry.without_client(handle).wf(),
        registry.without_client(handle).role_of(handle) is None,
        forall|h: ClientHandle|
            h != handle ==> registry.without_client(handle).role_of(h) == registry.role_of(h),
{
    lemma_without_members(registry.viewers, handle);
    lemma_without_members(registry.snapshots, handle);
}

/// Registering a handle keeps a registry well-formed; the handle then has a role,
/// the one asked for unless it had the other one before, and every other handle
/// keeps its role.
pub proof fn lemma_with_client(registry: RegistryView, handle: ClientHandle, role: ClientType)
    requires
        registry.wf(),
    ensures
        registry.with_client(handle, role).wf(),
        registry.admits(handle, role) ==> registry.with_client(handle, role).role_of(handle)
            == Some(role),
        !registry.admits(handle, role) ==> registry.with_client(handle, role) == registry,
        forall|h: ClientHandle|
            h != handle ==> registry.with_client(handle, role).role_of(h) == registry.role_of(h),
{
    let after = registry.with_client(handle, role);
    if registry.role_of(handle) is None {
        let grown = registry.members(role).push(handle);
        assert(grown[grown.len() - 1] == handle);
        assert forall|h: ClientHandle| grown.contains(h) <==> registry.members(role).contains(h)
            || h == handle by {
            if registry.members(role).contains(h) {
                let i = choose|i: int|
                    0 <= i < registry.members(role).len() && registry.members(role)[i] == h;
                assert(grown[i] == h);
            }
        }
        assert(grown.no_duplicates());
    }
}

/// Taking a handle out twice is the same as taking it out once.
pub proof fn lemma_remove_is_idempotent(registry: RegistryView, handle: ClientHandle)
    ensures
        registry.without_client(handle).without_client(handle) == registry.without_client(handle),
{
    lemma_without_members(registry.viewers, handle);
    lemma_without_members(registry.snapshots, handle);
    lemma_without_members(without(registry.viewers, handle), handle);
    lemma_without_members(without(registry.snapshots, handle), handle);
}

/// The connected sessions, by role.
#[derive(Debug)]
pub struct ClientRegistry {
    viewer_clients: Vec<ClientHandle>,
    snapshot_clients: Vec<ClientHandle>,
}

impl View for ClientRegistry {
    type V = RegistryView;

    closed spec fn view(&self) -> RegistryView {
        RegistryView { viewers: self.viewer_clients@, snapshots: self.snapshot_clients@ }
    }
}

/// Finds out whether `handle` is among `handles`.
fn holds(handles: &Vec<ClientHandle>, handle: ClientHandle) -> (found: bool)
    ensures
        found == handles@.contains(handle),
{
    let mut i: usize = 0;
    while i < handles.len()
        invariant
            i <= handles.len(),
            forall|j: int| 0 <= j < i ==> handles@[j] != handle,
        decreases handles.len() - i,
    {
        if handles[i] == handle {
            return true;
        }
        i += 1;
    }
    false
}

/// Copies the handles that are not `handle`, in their order.
fn others(handles: &Vec<ClientHandle>, handle: ClientHandle) -> (kept: Vec<ClientHandle>)
    ensures
        kept@ == without(handles@, handle),
{
    let mut kept: Vec<ClientHandle> = Vec::new();
    let mut i: usize = 0;
    proof {
        reveal(Seq::filter);
    }
    assert(without(handles@.take(0), handle) =~= Seq::<ClientHandle>::empty());
    while i < handles.len()
        invariant
            i <= handles.len(),
            kept@ == without(handles@.take(i as int), handle),
        decreases handles.len() - i,
    {
        proof {
            reveal(Seq::filter);
            assert(handles@.take(i + 1).drop_last() =~= handles@.take(i as int));
        }
        if handles[i] != handle {
            kept.push(handles[i]);
        }
        i += 1;
    }
    assert(handles@.take(i as int) =~= handles@);
    kept
}

impl ClientRegistry {
    #[verifier::type_invariant]
    spec fn valid(&self) -> bool {
        self@.wf()
    }

    /// A registry with nobody in it.
    pub fn new() -> (registry: ClientRegistry)
        ensures
            registry@ == RegistryView::empty(),
    {
        ClientRegistry { viewer_clients: Vec::new(), snapshot_clients: Vec::new() }
    }

    /// The role under which `handle` is registered, if it is.
    pub fn role_of(&self, handle: ClientHandle) -> (role: Option<ClientType>)
        ensures
            role == self@.role_of(handle),
            self@.wf(),
    {
        proof {
            use_type_invariant(self);
        }
        if holds(&self.viewer_clients, handle) {
            Some(ClientType::Viewer)
        } else if holds(&self.snapshot_clients, handle) {
            Some(ClientType::Snapshot)
        } else {
            None
        }
    }

    /// Whether nobody is registered.
    pub fn is_empty(&self) -> (empty: bool)
        ensures
            empty == self@.is_empty(),
    {
        self.viewer_clients.len() == 0 && self.snapshot_clients.len() == 0
    }

    /// Registers `handle` under `client_type`.
    ///
    /// A handle has one role: registering it under the role it has changes nothing,
    /// and registering it under the other role is refused.
    pub fn add_client(&mut self, handle: ClientHandle, client_type: ClientType) -> (r: Result<
        (),
        RegistryError,
    >)
        ensures
            old(self)@.wf(),
            final(self)@.wf(),
            final(self)@ == old(self)@.with_client(handle, client_type),
            r is Ok <==> old(self)@.admits(handle, client_type),
            r is Ok ==> final(self)@.role_of(handle) == Some(client_type),
    {
        proof {
            use_type_invariant(&*self);
            lemma_with_client(self@, handle, client_type);
        }
        match self.role_of(handle) {
            Some(role) => {
                if role == client_type {
                    Ok(())
                } else {
                    Err(RegistryError::RoleConflict)
                }
            },
            None => {
                match client_type {
                    ClientType::Viewer => {
                        let mut viewers = self.viewer_clients.clone();
                        viewers.push(handle);
                        self.viewer_clients = viewers;
                    },
                    ClientType::Snapshot => {
                        let mut snapshots = self.snapshot_clients.clone();
                        snapshots.push(handle);
                        self.snapshot_clients = snapshots;
                    },
                }
                Ok(())
            },
        }
    }

    /// Takes `handle` out of both roles. A handle that is not registered is left
    /// alone, and so is everybody else.
    pub fn remove_client(&mut self, handle: ClientHandle)
        ensures
            final(self)@.wf(),
            final(self)@ == old(self)@.without_client(handle),
            final(self)@.role_of(handle) is None,
    {
        proof {
            use_type_invariant(&*self);
            lemma_without_client(self@, handle);
            lemma_without_members(self.viewer_clients@, handle);
            lemma_without_members(self.snapshot_clients@, handle);
        }
        let viewers = others(&self.viewer_clients, handle);
        let snapshots = others(&self.snapshot_clients, handle);
        self.snapshot_clients = snapshots;
        self.viewer_clients = viewers;
    }

    /// The sessions that a broadcast to `client_type` goes to: the handles
    /// registered under that role at this moment, and no others.
    pub fn recipients(&self, client_type: ClientType) -> (to: Vec<ClientHandle>)
        ensures
            to@ == self@.members(client_type),
            self@.wf(),
    {
        proof {
            use_type_invariant(self);
        }
        match client_type {
            ClientType::Viewer => self.viewer_clients.clone(),
            ClientType::Snapshot => self.snapshot_clients.clone(),
        }
    }
}

} // verus!
