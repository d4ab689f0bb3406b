use vstd::prelude::*;
use vstd::string::StringExecFns;

use crate::auth::ClientAuth;
use crate::log::{LogReader, LogWriter};
use std::collections::HashSet;

verus! {

/// A failure surfaced over the wire by the service operations. A handle
/// that does not exist and a handle owned by another principal yield
/// the same `InvalidTaskHandle` value, so a client cannot probe for the
/// existence of other tenants' tasks.
#[derive(Debug)]
pub enum ServiceError {
    /// The request reached the service without an attached identity: a
    /// programming error in the interceptor chain.
    MissingAuth,
    /// The request's task handle is not a well-formed UUID.
    InvalidUuidFormat,
    /// The handle names no task visible to the caller.
    InvalidTaskHandle,
    /// The registry could not admit the task; the one source is a
    /// collision of freshly generated handles.
    Internal,
}

impl ServiceError {
    /// The wire-level status message for this failure.
    pub fn message(&self) -> (r: String)
        ensures
            match self {
                ServiceError::MissingAuth => r@ == "Missing ClientAuth extension"@,
                ServiceError::InvalidUuidFormat => r@
                    == "TaskHandle.uuid is not a valid UUIDv4"@,
                ServiceError::InvalidTaskHandle => r@ == "Invalid task handle"@,
                ServiceError::Internal => r@ == "Internal error"@,
            },
    {
        match self {
            ServiceError::MissingAuth => String::from_str("Missing ClientAuth extension"),
            ServiceError::InvalidUuidFormat => String::from_str(
                "TaskHandle.uuid is not a valid UUIDv4",
            ),
            ServiceError::InvalidTaskHandle => String::from_str("Invalid task handle"),
            ServiceError::Internal => String::from_str("Internal error"),
        }
    }
}

/// Which output stream a chunk came from.
#[derive(Debug)]
pub enum OutputStream {
    Stdout,
    Stderr,
}

/// One unit of task output: a text fragment and its stream tag.
#[derive(Debug)]
pub struct OutputChunk {
    pub line: String,
    pub stream: OutputStream,
}

/// The last known execution state of a task. Status tracking beyond
/// `Running` is an extension point: queries of a live task report
/// `Running` with code 0.
#[derive(Debug)]
pub enum TaskStatus {
    Running,
    Exited,
    Failed,
}

/// A task's status and, once terminated, its exit code.
#[derive(Debug)]
pub struct TaskState {
    pub status: TaskStatus,
    pub code: i32,
}

/// What parsing a textual task handle yields: the UUID's 128-bit value,
/// or nothing when the text is not a well-formed UUID.
pub uninterp spec fn uuid_of(s: Seq<char>) -> Option<u128>;

/// Relies on uuid::Uuid::parse_str and Uuid::as_u128: parsing is a pure
/// function of the characters, and `as_u128` is the UUID's 128-bit
/// value.
#[verifier::external_body]
fn parse_uuid(s: &str) -> (r: Option<u128>)
    ensures
        r == uuid_of(s@),
{
    uuid::Uuid::parse_str(s).ok().map(|u| u.as_u128())
}

/// Relies on uuid::Uuid::new_v4 and Uuid::as_u128: a freshly generated
/// random version-4 UUID. Nothing is promised of the value; the
/// registry checks freshness itself.
#[verifier::external_body]
fn fresh_handle() -> (h: u128) {
    uuid::Uuid::new_v4().as_u128()
}

/// Maps a textual handle to its UUID value, or to the wire error for a
/// malformed handle.
pub fn string_to_uuid(uuid_string: &str) -> (r: Result<u128, ServiceError>)
    ensures
        uuid_of(uuid_string@) matches Some(h) ==> r == Ok::<u128, ServiceError>(h),
        uuid_of(uuid_string@) is None ==> r == Err::<u128, ServiceError>(
            ServiceError::InvalidUuidFormat,
        ),
{
    match parse_uuid(uuid_string) {
        Some(h) => Ok(h),
        None => Err(ServiceError::InvalidUuidFormat),
    }
}

/// Recovers the identity that the authorization interceptor attached to
/// the request, or the internal error when none is attached.
pub fn request_to_auth(extension: Option<ClientAuth>) -> (r: Result<ClientAuth, ServiceError>)
    ensures
        extension matches Some(a) ==> r == Ok::<ClientAuth, ServiceError>(a),
        extension is None ==> r == Err::<ClientAuth, ServiceError>(ServiceError::MissingAuth),
{
    match extension {
        Some(a) => Ok(a),
        None => Err(ServiceError::MissingAuth),
    }
}

/// The registry's two shared-state stores, both dashmap maps.
pub type TaskMap = dashmap::DashMap<u128, usize>;

pub type OwnerMap = dashmap::DashMap<String, HashSet<u128>>;

/// dashmap's concurrent hash map, the registry's shared-state store.
#[verifier::external_type_specification]
#[verifier::external_body]
#[verifier::reject_recursive_types(K)]
#[verifier::reject_recursive_types(V)]
#[verifier::reject_recursive_types(S)]
pub struct ExDashMap<K, V, S>(dashmap::DashMap<K, V, S>);

/// The contents of the handle index: which slot of the task store each
/// live handle occupies.
pub uninterp spec fn task_map_view(m: dashmap::DashMap<u128, usize>) -> Map<u128, usize>;

/// The contents of the owner index: the set of handles each principal
/// has created.
pub uninterp spec fn owners_view(m: dashmap::DashMap<String, HashSet<u128>>) -> Map<
    Seq<char>,
    Set<u128>,
>;

/// Relies on dashmap::DashMap::new: a freshly created map is empty.
#[verifier::external_body]
fn new_task_map() -> (r: TaskMap)
    ensures
        ({ let m = r; task_map_view(m) == Map::<u128, usize>::empty() }),
{
    dashmap::DashMap::new()
}

/// Relies on dashmap::DashMap::new: a freshly created map is empty.
#[verifier::external_body]
fn new_owner_map() -> (r: OwnerMap)
    ensures
        ({ let m = r; owners_view(m) == Map::<Seq<char>, Set<u128>>::empty() }),
{
    dashmap::DashMap::new()
}

/// Relies on dashmap::DashMap::insert: afterwards the key maps to the
/// value and every other entry is unchanged.
#[verifier::external_body]
fn task_map_insert(m: &mut dashmap::DashMap<u128, usize>, handle: u128, slot: usize)
    ensures
        task_map_view(*final(m)) == task_map_view(*old(m)).insert(handle, slot),
{
    m.insert(handle, slot);
}

/// Relies on dashmap::DashMap::get: the value under the key, if any,
/// copied out of the guard.
#[verifier::external_body]
fn task_map_get(m: &dashmap::DashMap<u128, usize>, handle: u128) -> (r: Option<usize>)
    ensures
        match r {
            Some(slot) => task_map_view(*m).dom().contains(handle) && task_map_view(*m)[handle]
                == slot,
            None => !task_map_view(*m).dom().contains(handle),
        },
{
    m.get(&handle).map(|entry| *entry.value())
}

/// Relies on dashmap::DashMap::remove: afterwards the key is absent and
/// every other entry is unchanged.
#[verifier::external_body]
fn task_map_remove(m: &mut dashmap::DashMap<u128, usize>, handle: u128)
    ensures
        task_map_view(*final(m)) == task_map_view(*old(m)).remove(handle),
{
    m.remove(&handle);
}

/// Relies on dashmap::DashMap::iter and Ref::key: the keys present in
/// the map, each exactly once, in no promised order.
#[verifier::external_body]
fn task_map_keys(m: &dashmap::DashMap<u128, usize>) -> (r: Vec<u128>)
    ensures
        forall|h: u128| r@.contains(h) <==> task_map_view(*m).dom().contains(h),
        forall|i: int, j: int| 0 <= i < j < r@.len() ==> r@[i] != r@[j],
{
    m.iter().map(|entry| *entry.key()).collect()
}

/// Relies on dashmap::DashMap::entry, Entry::or_default and
/// std::collections::HashSet::insert: afterwards the principal's set of
/// handles additionally contains the handle, and every other entry is
/// unchanged.
#[verifier::external_body]
fn owners_add(m: &mut dashmap::DashMap<String, HashSet<u128>>, id: &String, handle: u128)
    ensures
        owners_view(*final(m)) == owners_view(*old(m)).insert(
            id@,
            if owners_view(*old(m)).dom().contains(id@) {
                owners_view(*old(m))[id@].insert(handle)
            } else {
                Set::<u128>::empty().insert(handle)
            },
        ),
{
    m.entry(id.clone()).or_default().insert(handle);
}

/// Relies on dashmap::DashMap::get and std::collections::HashSet::
/// contains: whether the principal's set of handles contains the
/// handle.
#[verifier::external_body]
fn owners_contains(m: &dashmap::DashMap<String, HashSet<u128>>, id: &String, handle: u128) -> (r:
    bool)
    ensures
        r == (owners_view(*m).dom().contains(id@) && owners_view(*m)[id@].contains(handle)),
{
    match m.get(id) {
        Some(set) => set.value().contains(&handle),
        None => false,
    }
}

/// Relies on dashmap::DashMap::get and std::collections::HashSet::iter:
/// the principal's handles, each exactly once, in no promised order;
/// empty when the principal has none.
#[verifier::external_body]
fn owners_snapshot(m: &dashmap::DashMap<String, HashSet<u128>>, id: &String) -> (r: Vec<u128>)
    ensures
        forall|h: u128|
            r@.contains(h) <==> (owners_view(*m).dom().contains(id@) && owners_view(
                *m,
            )[id@].contains(h)),
        forall|i: int, j: int| 0 <= i < j < r@.len() ==> r@[i] != r@[j],
{
    match m.get(id) {
        Some(set) => set.value().iter().copied().collect(),
        None => Vec::new(),
    }
}

/// Whether this identity is in the privileged group.
pub open spec fn is_admin(auth: ClientAuth) -> bool {
    auth.group@ == "admin"@
}

/// A task record: its handle, the writing half of its fan-out output
/// log, and the factory that mints replay-from-start subscribers. The
/// child process, status and exit code are extension points.
pub struct Task {
    pub handle: u128,
    pub factory: crate::log::LogReaderFactory<OutputChunk>,
    pub log: LogWriter<OutputChunk>,
}

impl Task {
    pub fn new(handle: u128) -> (t: Task)
        ensures
            t.handle == handle,
            t.log.log().items() == Seq::<OutputChunk>::empty(),
            !t.log.log().is_closed(),
    {
        let (factory, log) = crate::log::log_channel();
        Task { handle, factory, log }
    }

    pub fn subscribe(&self) -> (r: LogReader<OutputChunk>)
        ensures
            r.position() == 0,
    {
        self.factory.create_reader()
    }
}

/// The task registry: the single source of truth `tasks` (handle to
/// record, realized as a handle index into a slot store), the owner
/// index `owners` (principal id to handles), and the record of every
/// handle ever issued, which only grows: a handle is never reissued,
/// not even after its task is removed. The owner index may retain
/// handles of removed tasks; lookups join through `tasks`, so stale
/// entries are never visible.
pub struct SchedulerServer {
    task_map: TaskMap,
    client_tasks: OwnerMap,
    issued: TaskMap,
    slots: Vec<Option<Task>>,
}

impl SchedulerServer {
    /// The handle index: which slot each live handle occupies.
    pub closed spec fn handle_index(&self) -> Map<u128, usize> {
        task_map_view(self.task_map)
    }

    /// The owner index: the handles each principal has created.
    pub closed spec fn owners(&self) -> Map<Seq<char>, Set<u128>> {
        owners_view(self.client_tasks)
    }

    /// The slot store.
    pub closed spec fn spec_slots(&self) -> Seq<Option<Task>> {
        self.slots@
    }

    /// The record of issued handles; it only ever grows.
    pub closed spec fn issued_index(&self) -> Map<u128, usize> {
        task_map_view(self.issued)
    }

    /// Every handle ever issued, the live ones included.
    pub open spec fn issued_handles(&self) -> Set<u128> {
        self.issued_index().dom()
    }

    /// The handles of the live tasks.
    pub open spec fn task_handles(&self) -> Set<u128> {
        self.handle_index().dom()
    }

    /// The live task record under a handle.
    pub open spec fn spec_task(&self, h: u128) -> Task
        recommends
            self.task_handles().contains(h),
            self.wf(),
    {
        self.spec_slots()[self.handle_index()[h] as int].unwrap()
    }

    /// Whether the owner index credits this principal with this handle.
    pub open spec fn owned_by(&self, id: Seq<char>, h: u128) -> bool {
        self.owners().dom().contains(id) && self.owners()[id].contains(h)
    }

    /// A handle resolves for a caller exactly when the task is live and
    /// the caller is an admin or is credited with the handle.
    pub open spec fn visible(&self, auth: ClientAuth, h: u128) -> bool {
        self.task_handles().contains(h) && (is_admin(auth) || self.owned_by(auth.id@, h))
    }

    /// Well-formedness: the handle index points at live slots holding
    /// the task with that handle, and live slots point back, so the
    /// index is injective; every live handle is recorded as issued.
    pub open spec fn wf(&self) -> bool {
        &&& forall|h: u128| #[trigger] self.handle_index().dom().contains(h) ==> {
            &&& self.handle_index()[h] < self.spec_slots().len()
            &&& self.spec_slots()[self.handle_index()[h] as int] is Some
            &&& self.spec_slots()[self.handle_index()[h] as int].unwrap().handle == h
            &&& self.issued_handles().contains(h)
        }
        &&& forall|i: int|
            0 <= i < self.spec_slots().len() && (#[trigger] self.spec_slots()[i]) is Some ==> {
                &&& self.handle_index().dom().contains(self.spec_slots()[i].unwrap().handle)
                &&& self.handle_index()[self.spec_slots()[i].unwrap().handle] == i
            }
    }

    /// An empty registry: no tasks, no owner entries, no handle issued.
    pub fn new() -> (s: SchedulerServer)
        ensures
            s.wf(),
            s.task_handles() == Set::<u128>::empty(),
            s.owners() == Map::<Seq<char>, Set<u128>>::empty(),
            s.issued_handles() == Set::<u128>::empty(),
    {
        let s = SchedulerServer {
            task_map: new_task_map(),
            client_tasks: new_owner_map(),
            issued: new_task_map(),
            slots: Vec::new(),
        };
        proof {
            assert(s.task_handles() =~= Set::<u128>::empty());
            assert(s.issued_handles() =~= Set::<u128>::empty());
        }
        s
    }

    /// Whether this caller may act on this handle: admins always, other
    /// principals exactly when the owner index credits them with it.
    pub fn verify_task_access(&self, auth: &ClientAuth, handle: u128) -> (r: bool)
        ensures
            r == (is_admin(*auth) || self.owned_by(auth.id@, handle)),
    {
        if auth.group == String::from_str("admin") {
            return true;
        }
        owners_contains(&self.client_tasks, &auth.id, handle)
    }

    /// Resolves a handle for a caller. Absent handles and handles of
    /// other principals' tasks fail with the same error value, so the
    /// two cases are indistinguishable to the caller.
    pub fn lookup_task(&self, auth: &ClientAuth, handle: u128) -> (r: Result<&Task, ServiceError>)
        requires
            self.wf(),
        ensures
            r is Ok <==> self.visible(*auth, handle),
            r matches Ok(t) ==> *t == self.spec_task(handle) && t.handle == handle,
            r is Err ==> r == Err::<&Task, ServiceError>(ServiceError::InvalidTaskHandle),
    {
        let slot = match task_map_get(&self.task_map, handle) {
            Some(s) => s,
            None => {
                return Err(ServiceError::InvalidTaskHandle);
            },
        };
        if self.verify_task_access(auth, handle) {
            match &self.slots[slot] {
                Some(task) => Ok(task),
                None => {
                    proof {
                        assert(false);
                    }
                    Err(ServiceError::InvalidTaskHandle)
                },
            }
        } else {
            Err(ServiceError::InvalidTaskHandle)
        }
    }

    /// `lookup_task` with mutable intent: on success the caller holds
    /// the task record for mutation. The registry stays well-formed as
    /// long as the caller leaves the record's handle alone.
    pub fn lookup_task_mut(&mut self, auth: &ClientAuth, handle: u128) -> (r: Result<
        &mut Task,
        ServiceError,
    >)
        requires
            old(self).wf(),
        ensures
            r is Ok <==> old(self).visible(*auth, handle),
            r matches Ok(t) ==> {
                &&& *t == old(self).spec_task(handle)
                &&& final(self).handle_index() == old(self).handle_index()
                &&& final(self).owners() == old(self).owners()
                &&& final(self).issued_handles() == old(self).issued_handles()
                &&& final(self).spec_slots() == old(self).spec_slots().update(
                    old(self).handle_index()[handle] as int,
                    Some(*final(t)),
                )
                &&& (final(t).handle == handle ==> final(self).wf())
            },
            r is Err ==> *final(self) == *old(self) && r == Err::<&mut Task, ServiceError>(
                ServiceError::InvalidTaskHandle,
            ),
    {
        let slot = match task_map_get(&self.task_map, handle) {
            Some(s) => s,
            None => {
                return Err(ServiceError::InvalidTaskHandle);
            },
        };
        if self.verify_task_access(auth, handle) {
            match &mut self.slots[slot] {
                Some(task) => Ok(task),
                None => {
                    proof {
                        assert(false);
                    }
                    Err(ServiceError::InvalidTaskHandle)
                },
            }
        } else {
            Err(ServiceError::InvalidTaskHandle)
        }
    }

    /// Admits a task under the given handle: fails exactly when the
    /// handle was ever issued before, and otherwise records the handle
    /// as issued for good, records the task in `tasks`, and credits the
    /// creating principal in `owners`.
    pub fn insert_task(&mut self, auth: &ClientAuth, handle: u128) -> (r: Result<(), ServiceError>)
        requires
            old(self).wf(),
        ensures
            final(self).wf(),
            r is Ok <==> !old(self).issued_handles().contains(handle),
            r is Err ==> *final(self) == *old(self) && r == Err::<(), ServiceError>(
                ServiceError::Internal,
            ),
            r is Ok ==> {
                &&& !old(self).task_handles().contains(handle)
                &&& final(self).issued_handles() == old(self).issued_handles().insert(handle)
                &&& final(self).task_handles() == old(self).task_handles().insert(handle)
                &&& final(self).spec_task(handle).handle == handle
                &&& final(self).spec_task(handle).log.log().items() == Seq::<OutputChunk>::empty()
                &&& !final(self).spec_task(handle).log.log().is_closed()
                &&& forall|h2: u128|
                    h2 != handle && old(self).task_handles().contains(h2)
                        ==> final(self).spec_task(h2) == old(self).spec_task(h2)
                &&& final(self).owners() == old(self).owners().insert(
                    auth.id@,
                    if old(self).owners().dom().contains(auth.id@) {
                        old(self).owners()[auth.id@].insert(handle)
                    } else {
                        Set::<u128>::empty().insert(handle)
                    },
                )
            },
    {
        match task_map_get(&self.issued, handle) {
            Some(_) => Err(ServiceError::Internal),
            None => {
                let slot = self.slots.len();
                self.slots.push(Some(Task::new(handle)));
                task_map_insert(&mut self.task_map, handle, slot);
                task_map_insert(&mut self.issued, handle, slot);
                owners_add(&mut self.client_tasks, &auth.id, handle);
                proof {
                    assert(self.task_handles() =~= old(self).task_handles().insert(handle));
                    assert(self.issued_handles() =~= old(self).issued_handles().insert(handle));
                }
                Ok(())
            },
        }
    }

    /// Creates a task under a freshly generated handle and credits the
    /// caller with it in the owner index; every other principal's entry
    /// is unchanged. The handle was never issued before and is recorded
    /// so it never will be again. Fails only if the generated handle
    /// collides with an issued one, in which case the registry is
    /// unchanged.
    pub fn new_task(&mut self, auth: &ClientAuth, _cmd: &str, _args: &Vec<String>) -> (r: Result<
        u128,
        ServiceError,
    >)
        requires
            old(self).wf(),
        ensures
            final(self).wf(),
            r is Err ==> *final(self) == *old(self) && r == Err::<u128, ServiceError>(
                ServiceError::Internal,
            ),
            r matches Ok(handle) ==> {
                &&& !old(self).issued_handles().contains(handle)
                &&& !old(self).task_handles().contains(handle)
                &&& final(self).issued_handles() == old(self).issued_handles().insert(handle)
                &&& final(self).task_handles() == old(self).task_handles().insert(handle)
                &&& final(self).spec_task(handle).handle == handle
                &&& final(self).spec_task(handle).log.log().items() == Seq::<OutputChunk>::empty()
                &&& !final(self).spec_task(handle).log.log().is_closed()
                &&& final(self).visible(*auth, handle)
                &&& final(self).owned_by(auth.id@, handle)
                &&& final(self).owners() == old(self).owners().insert(
                    auth.id@,
                    if old(self).owners().dom().contains(auth.id@) {
                        old(self).owners()[auth.id@].insert(handle)
                    } else {
                        Set::<u128>::empty().insert(handle)
                    },
                )
                &&& forall|h2: u128|
                    h2 != handle && old(self).task_handles().contains(h2)
                        ==> final(self).spec_task(h2) == old(self).spec_task(h2)
            },
    {
        let handle = fresh_handle();
        match self.insert_task(auth, handle) {
            Ok(()) => Ok(handle),
            Err(e) => Err(e),
        }
    }

    /// Removes a task from `tasks`. The owner index may retain the
    /// handle; it is never visible, because lookups join through
    /// `tasks`. The handle stays recorded as issued, so it is never
    /// reissued.
    pub fn remove_task(&mut self, handle: u128) -> (removed: bool)
        requires
            old(self).wf(),
        ensures
            final(self).wf(),
            removed == old(self).task_handles().contains(handle),
            !removed ==> *final(self) == *old(self),
            final(self).task_handles() == old(self).task_handles().remove(handle),
            final(self).owners() == old(self).owners(),
            final(self).issued_handles() == old(self).issued_handles(),
            forall|h2: u128|
                h2 != handle && old(self).task_handles().contains(h2) ==> final(self).spec_task(h2)
                    == old(self).spec_task(h2) && final(self).task_handles().contains(h2),
    {
        match task_map_get(&self.task_map, handle) {
            None => {
                proof {
                    assert(final(self).task_handles() =~= old(self).task_handles().remove(handle));
                }
                false
            },
            Some(slot) => {
                let slot_ref = &mut self.slots[slot];
                *slot_ref = None;
                task_map_remove(&mut self.task_map, handle);
                proof {
                    assert(final(self).task_handles() =~= old(self).task_handles().remove(handle));
                }
                true
            },
        }
    }
}

impl SchedulerServer {
    /// The handles a caller's iteration starts from: every live handle
    /// for an admin, the owner index's credit for anyone else. A
    /// snapshot: it holds no lock and does not see later creations.
    pub fn snapshot_handles(&self, auth: &ClientAuth) -> (r: Vec<u128>)
        ensures
            forall|h: u128|
                r@.contains(h) <==> (if is_admin(*auth) {
                    self.task_handles().contains(h)
                } else {
                    self.owned_by(auth.id@, h)
                }),
            forall|i: int, j: int| 0 <= i < j < r@.len() ==> r@[i] != r@[j],
    {
        if auth.group == String::from_str("admin") {
            task_map_keys(&self.task_map)
        } else {
            owners_snapshot(&self.client_tasks, &auth.id)
        }
    }

    /// Point-lookups of a snapshot of distinct handles: yields the task
    /// under every handle that is still live, in snapshot order, and
    /// skips, without error, any handle removed since the snapshot.
    pub fn resolve_handles(&self, handles: &Vec<u128>) -> (r: Vec<&Task>)
        requires
            self.wf(),
            forall|i: int, j: int| 0 <= i < j < handles@.len() ==> handles@[i] != handles@[j],
        ensures
            forall|i: int|
                0 <= i < r@.len() ==> {
                    &&& self.task_handles().contains((#[trigger] r@[i]).handle)
                    &&& *r@[i] == self.spec_task(r@[i].handle)
                    &&& handles@.contains(r@[i].handle)
                },
            forall|j: int|
                0 <= j < handles@.len() && self.task_handles().contains(#[trigger] handles@[j])
                    ==> exists|i: int| 0 <= i < r@.len() && r@[i].handle == handles@[j],
            forall|i: int, j: int| 0 <= i < j < r@.len() ==> r@[i].handle != r@[j].handle,
    {
        let mut r: Vec<&Task> = Vec::new();
        let mut k: usize = 0;
        while k < handles.len()
            invariant
                self.wf(),
                forall|i: int, j: int| 0 <= i < j < handles@.len() ==> handles@[i] != handles@[j],
                0 <= k <= handles@.len(),
                forall|i: int|
                    0 <= i < r@.len() ==> {
                        &&& self.task_handles().contains((#[trigger] r@[i]).handle)
                        &&& *r@[i] == self.spec_task(r@[i].handle)
                        &&& handles@.take(k as int).contains(r@[i].handle)
                    },
                forall|j: int|
                    0 <= j < k && self.task_handles().contains(#[trigger] handles@[j]) ==> exists|
                        i: int,
                    | 0 <= i < r@.len() && r@[i].handle == handles@[j],
                forall|i: int, j: int| 0 <= i < j < r@.len() ==> r@[i].handle != r@[j].handle,
            decreases handles@.len() - k,
        {
            let ghost r0 = r@;
            let handle = handles[k];
            proof {
                assert(!handles@.take(k as int).contains(handles@[k as int])) by {
                    if handles@.take(k as int).contains(handles@[k as int]) {
                        let i = choose|i: int|
                            0 <= i < handles@.take(k as int).len() && #[trigger] handles@.take(
                                k as int,
                            )[i] == handles@[k as int];
                        assert(handles@[i] == handles@[k as int]);
                    }
                };
            }
            match task_map_get(&self.task_map, handle) {
                Some(slot) => {
                    match &self.slots[slot] {
                        Some(task) => {
                            r.push(task);
                        },
                        None => {
                            proof {
                                assert(false);
                            }
                        },
                    }
                },
                None => {},
            }
            k = k + 1;
            proof {
                let kk = k as int;
                assert(handles@.take(kk) =~= handles@.take(kk - 1).push(handles@[kk - 1]));
                assert forall|x: u128|
                    handles@.take(kk - 1).contains(x) implies handles@.take(kk).contains(x) by {
                    let i = choose|i: int|
                        0 <= i < handles@.take(kk - 1).len() && #[trigger] handles@.take(kk - 1)[i]
                            == x;
                    assert(handles@.take(kk)[i] == x);
                };
                if r@.len() == r0.len() + 1 {
                    assert(handles@.take(kk)[kk - 1] == handles@[kk - 1]);
                    assert(handles@.take(kk).contains(handles@[kk - 1]));
                }
                assert forall|j: int|
                    0 <= j < kk && self.task_handles().contains(#[trigger] handles@[j]) implies
                    exists|i: int| 0 <= i < r@.len() && r@[i].handle == handles@[j] by {
                    if j < kk - 1 {
                        let i = choose|i: int|
                            0 <= i < r0.len() && (#[trigger] r0[i]).handle == handles@[j];
                        assert(r@[i].handle == handles@[j]);
                    } else {
                        assert(r@[r@.len() - 1].handle == handles@[j]);
                    }
                };
            }
        }
        proof {
            assert(handles@.take(handles@.len() as int) =~= handles@);
        }
        r
    }

    /// One caller's view of the registry: a snapshot of the handles the
    /// caller may see, resolved against `tasks`. Admins see every live
    /// task; other principals see exactly their own live tasks. Tasks
    /// removed between snapshot and resolution are skipped without
    /// error; no lock is held across the yield.
    pub fn iter_tasks(&self, auth: &ClientAuth) -> (r: Vec<&Task>)
        requires
            self.wf(),
        ensures
            forall|i: int|
                0 <= i < r@.len() ==> self.visible(*auth, (#[trigger] r@[i]).handle) && *r@[i]
                    == self.spec_task(r@[i].handle),
            forall|h: u128|
                self.visible(*auth, h) ==> exists|i: int|
                    0 <= i < r@.len() && (#[trigger] r@[i]).handle == h,
            forall|i: int, j: int| 0 <= i < j < r@.len() ==> r@[i].handle != r@[j].handle,
    {
        let handles = self.snapshot_handles(auth);
        let r = self.resolve_handles(&handles);
        proof {
            assert forall|h: u128| self.visible(*auth, h) implies exists|i: int|
                0 <= i < r@.len() && (#[trigger] r@[i]).handle == h by {
                assert(handles@.contains(h));
                let j = choose|j: int| 0 <= j < handles@.len() && handles@[j] == h;
                assert(self.task_handles().contains(handles@[j]));
            }
        }
        r
    }
}

impl SchedulerServer {
    /// The StartTask operation: admits a task for the caller under a
    /// fresh handle, never issued before and never to be reissued,
    /// credits the caller in the owner index, and leaves every other
    /// principal's entry unchanged. The spawn of the isolated process
    /// and the wiring of its output into the task's log are the
    /// runtime's extension point.
    pub fn start_task(&mut self, auth: &ClientAuth, cmd: &str, args: &Vec<String>) -> (r: Result<
        u128,
        ServiceError,
    >)
        requires
            old(self).wf(),
        ensures
            final(self).wf(),
            r is Err ==> *final(self) == *old(self) && r == Err::<u128, ServiceError>(
                ServiceError::Internal,
            ),
            r matches Ok(handle) ==> {
                &&& !old(self).issued_handles().contains(handle)
                &&& !old(self).task_handles().contains(handle)
                &&& final(self).issued_handles() == old(self).issued_handles().insert(handle)
                &&& final(self).task_handles() == old(self).task_handles().insert(handle)
                &&& final(self).visible(*auth, handle)
                &&& final(self).owned_by(auth.id@, handle)
                &&& final(self).owners() == old(self).owners().insert(
                    auth.id@,
                    if old(self).owners().dom().contains(auth.id@) {
                        old(self).owners()[auth.id@].insert(handle)
                    } else {
                        Set::<u128>::empty().insert(handle)
                    },
                )
                &&& final(self).spec_task(handle).handle == handle
                &&& final(self).spec_task(handle).log.log().items() == Seq::<OutputChunk>::empty()
                &&& !final(self).spec_task(handle).log.log().is_closed()
                &&& forall|h2: u128|
                    h2 != handle && old(self).task_handles().contains(h2)
                        ==> final(self).spec_task(h2) == old(self).spec_task(h2)
            },
    {
        self.new_task(auth, cmd, args)
    }

    /// The StopTask operation: a malformed handle is rejected outright;
    /// a well-formed handle is resolved under the caller's authority
    /// and, when visible, its task is removed from the registry. The
    /// signal escalation against the underlying process is an extension
    /// point.
    pub fn stop_task(&mut self, auth: &ClientAuth, uuid_string: &str) -> (r: Result<
        (),
        ServiceError,
    >)
        requires
            old(self).wf(),
        ensures
            final(self).wf(),
            uuid_of(uuid_string@) is None ==> *final(self) == *old(self) && r == Err::<
                (),
                ServiceError,
            >(ServiceError::InvalidUuidFormat),
            uuid_of(uuid_string@) matches Some(h) && !old(self).visible(*auth, h) ==> *final(self)
                == *old(self) && r == Err::<(), ServiceError>(ServiceError::InvalidTaskHandle),
            uuid_of(uuid_string@) matches Some(h) && old(self).visible(*auth, h) ==> {
                &&& r is Ok
                &&& final(self).task_handles() == old(self).task_handles().remove(
                    uuid_of(uuid_string@).unwrap(),
                )
                &&& final(self).owners() == old(self).owners()
                &&& final(self).issued_handles() == old(self).issued_handles()
            },
    {
        let handle = match string_to_uuid(uuid_string) {
            Ok(h) => h,
            Err(e) => {
                return Err(e);
            },
        };
        match self.lookup_task_mut(auth, handle) {
            Err(e) => Err(e),
            Ok(_task) => {
                proof {
                    assert(self.spec_slots() =~= old(self).spec_slots().update(
                        old(self).handle_index()[handle] as int,
                        old(self).spec_slots()[old(self).handle_index()[handle] as int],
                    ));
                    assert(self.spec_slots() =~= old(self).spec_slots());
                }
                self.remove_task(handle);
                Ok(())
            },
        }
    }

    /// The QueryTask operation: the last known state of a visible task.
    /// Status tracking is an extension point, so a live task reports
    /// running with code 0; errors are as in `stop_task`.
    pub fn query_task(&self, auth: &ClientAuth, uuid_string: &str) -> (r: Result<
        TaskState,
        ServiceError,
    >)
        requires
            self.wf(),
        ensures
            uuid_of(uuid_string@) is None ==> r == Err::<TaskState, ServiceError>(
                ServiceError::InvalidUuidFormat,
            ),
            uuid_of(uuid_string@) matches Some(h) && !self.visible(*auth, h) ==> r == Err::<
                TaskState,
                ServiceError,
            >(ServiceError::InvalidTaskHandle),
            uuid_of(uuid_string@) matches Some(h) && self.visible(*auth, h) ==> (r matches Ok(st)
                && st.status matches TaskStatus::Running && st.code == 0),
    {
        let handle = match string_to_uuid(uuid_string) {
            Ok(h) => h,
            Err(e) => {
                return Err(e);
            },
        };
        match self.lookup_task(auth, handle) {
            Err(e) => Err(e),
            Ok(_task) => Ok(TaskState { status: TaskStatus::Running, code: 0 }),
        }
    }

    /// The TaskOutputStream operation: a fresh subscriber to a visible
    /// task's log, positioned at the head so it replays every chunk
    /// from the beginning of the task's life; errors are as in
    /// `stop_task`. The runtime forwards chunks from the reader until
    /// the log closes.
    pub fn task_output_stream(&self, auth: &ClientAuth, uuid_string: &str) -> (r: Result<
        LogReader<OutputChunk>,
        ServiceError,
    >)
        requires
            self.wf(),
        ensures
            uuid_of(uuid_string@) is None ==> r == Err::<LogReader<OutputChunk>, ServiceError>(
                ServiceError::InvalidUuidFormat,
            ),
            uuid_of(uuid_string@) matches Some(h) && !self.visible(*auth, h) ==> r == Err::<
                LogReader<OutputChunk>,
                ServiceError,
            >(ServiceError::InvalidTaskHandle),
            uuid_of(uuid_string@) matches Some(h) && self.visible(*auth, h) ==> (r matches Ok(
                reader,
            ) && reader.position() == 0),
    {
        let handle = match string_to_uuid(uuid_string) {
            Ok(h) => h,
            Err(e) => {
                return Err(e);
            },
        };
        match self.lookup_task(auth, handle) {
            Err(e) => Err(e),
            Ok(task) => Ok(task.subscribe()),
        }
    }
}

} // verus!
