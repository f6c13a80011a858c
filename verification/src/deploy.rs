//! Deployment of a function: the upload is gathered, named with a random
//! id, stored, recorded, given a port and a container, and the record is
//! updated. The server drives the machine below and does the work it asks for.
use vstd::prelude::*;
use crate::containers::{container_plan, is_plan_for, ContainerPlan};
use crate::records::DeployedFunction;
use crate::reply::Failure;
use crate::invoke::{invoke_prefix, lemma_invoke_path_reaches_function, routed_forward_path, routed_function_id};
use crate::text::lacks;

verus! {

/// A lower-case hexadecimal digit.
pub open spec fn is_lower_hex(c: char) -> bool {
    ('0' <= c && c <= '9') || ('a' <= c && c <= 'f')
}

/// The hyphenated, lower-case text of a random (version 4, RFC 4122
/// variant) UUID: 36 characters, hyphens at 8, 13, 18 and 23, hexadecimal
/// digits elsewhere, `4` at 14, and one of `8`, `9`, `a`, `b` at 19.
pub open spec fn is_uuid_v4_text(s: Seq<char>) -> bool {
    &&& s.len() == 36
    &&& forall|i: int|
        0 <= i < 36 ==> if i == 8 || i == 13 || i == 18 || i == 23 {
            s[i] == '-'
        } else {
            is_lower_hex(#[trigger] s[i])
        }
    &&& s[14] == '4'
    &&& (s[19] == '8' || s[19] == '9' || s[19] == 'a' || s[19] == 'b')
}

/// Calls `uuid::Uuid::new_v4` and renders the result with `to_string`.
/// The crate fills 128 random bits from the operating system, sets the
/// version nibble to 4 and the variant bits to `10`, and `Display` writes the
/// hyphenated lower-case form; the contract states that shape. Which id comes
/// out is left open. The crate panics when the operating system has no
/// random bytes to give.
#[verifier::external_body]
fn random_uuid_text() -> (r: String)
    ensures
        is_uuid_v4_text(r@),
{
    uuid::Uuid::new_v4().to_string()
}

/// A fresh id for a function.
pub fn new_function_id() -> (r: String)
    ensures
        is_uuid_v4_text(r@),
{
    random_uuid_text()
}

/// The id of a function holds no `/`, so it is one piece of a request path.
pub proof fn lemma_uuid_text_has_no_slash(s: Seq<char>)
    requires
        is_uuid_v4_text(s),
    ensures
        lacks(s, '/'),
{
    assert forall|i: int| 0 <= i < s.len() implies s[i] != '/' by {
        if !(i == 8 || i == 13 || i == 18 || i == 23) {
            assert(is_lower_hex(s[i]));
        }
    }
}

/// Hands out the ports on which functions are published: each port is one
/// above the last one handed out.
pub struct PortAllocator {
    last: u16,
}

impl PortAllocator {
    /// The last port handed out.
    pub closed spec fn last(&self) -> int {
        self.last as int
    }

    /// An allocator whose first port is 8082.
    pub fn new() -> (r: PortAllocator)
        ensures
            r.last() == 8081,
    {
        PortAllocator { last: 8081 }
    }

    /// Whether another port can be handed out.
    pub fn can_allocate(&self) -> (r: bool)
        ensures
            r == (self.last() < u16::MAX),
    {
        self.last < u16::MAX
    }

    /// The next port.
    pub fn allocate(&mut self) -> (r: u16)
        requires
            old(self).last() < u16::MAX,
        ensures
            r == old(self).last() + 1,
            final(self).last() == r,
    {
        self.last = self.last + 1;
        self.last
    }
}

/// `ports[i]` was handed out by an allocation from an allocator whose last
/// port was `lasts[i]` and which was left at `lasts[i + 1]`, as `allocate` states.
pub open spec fn is_allocation_run(lasts: Seq<int>, ports: Seq<int>) -> bool {
    &&& lasts.len() == ports.len() + 1
    &&& forall|i: int|
        0 <= i < ports.len() ==> #[trigger] ports[i] == lasts[i] + 1 && lasts[i + 1] == ports[i]
}

proof fn lemma_allocation_offsets(lasts: Seq<int>, ports: Seq<int>, k: int)
    requires
        is_allocation_run(lasts, ports),
        0 <= k < ports.len(),
    ensures
        ports[k] == lasts[0] + k + 1,
    decreases k,
{
    if k > 0 {
        lemma_allocation_offsets(lasts, ports, k - 1);
        assert(ports[k - 1] == lasts[k - 1] + 1 && lasts[k] == ports[k - 1]);
        assert(ports[k] == lasts[k] + 1);
    }
}

/// Successive allocations hand out strictly increasing ports, so no port is
/// handed out twice.
pub proof fn lemma_successive_ports_increase(lasts: Seq<int>, ports: Seq<int>)
    requires
        is_allocation_run(lasts, ports),
    ensures
        forall|i: int, j: int| 0 <= i < j < ports.len() ==> ports[i] < ports[j],
{
    assert forall|i: int, j: int| 0 <= i < j < ports.len() implies ports[i] < ports[j] by {
        lemma_allocation_offsets(lasts, ports, i);
        lemma_allocation_offsets(lasts, ports, j);
    }
}

/// The stages of a deployment.
pub enum DeployPhase {
    /// Gathering the uploaded fields.
    Reading { content: Vec<u8> },
    /// Waiting for the binary to be written under `function_id`.
    StoringBinary { function_id: String },
    /// Waiting for the function's record.
    CreatingRecord { binary_path: String },
    /// Waiting for a port.
    AllocatingPort { function_id: String, binary_path: String },
    /// Waiting for the container.
    CreatingContainer { function_id: String, port: u16 },
    /// Waiting for the record to name the container and port.
    UpdatingRecord { function_id: String },
    /// Nothing is left to do.
    Finished,
}

/// What came back from the work an action asked for.
pub enum DeployEvent {
    /// The bytes of the next uploaded field.
    FieldRead(Vec<u8>),
    /// The upload has no further field.
    FieldsDone,
    /// The upload could not be read.
    MultipartFailed,
    /// The binary was written (`Ok`) with its absolute path, `None` when the
    /// path is not valid UTF-8; or writing failed (`Err`).
    BinaryStored(Result<Option<String>, ()>),
    /// The created record, `None` when the store refused it.
    RecordCreated(Option<DeployedFunction>),
    /// The port handed out.
    PortAllocated(u16),
    /// The id of the created container, `None` when creation failed.
    ContainerCreated(Option<String>),
    /// Whether the record was updated.
    RecordUpdated(bool),
}

/// The work the server does next.
pub enum DeployAction {
    /// Read the next field of the upload.
    ReadField,
    /// Write `content` as the binary of `function_id`.
    StoreBinary { function_id: String, content: Vec<u8> },
    /// Create the record of `function_id`.
    CreateRecord { function_id: String },
    /// Hand out a port.
    AllocatePort,
    /// Create the container.
    CreateContainer(ContainerPlan),
    /// Record the container and port of the function.
    UpdateRecord { function_id: String, container_id: String, port: u16 },
    /// Answer: deployed under the id, or the failure.
    Reply(Result<String, Failure>),
}

/// A deployment in progress, for a server whose containers run `base_image`.
pub struct Deploy {
    pub base_image: String,
    pub phase: DeployPhase,
}

/// The event answers the work that the phase waits for.
pub open spec fn answers(phase: DeployPhase, event: DeployEvent) -> bool {
    match (phase, event) {
        (DeployPhase::Reading { .. }, DeployEvent::FieldRead(_)) => true,
        (DeployPhase::Reading { .. }, DeployEvent::FieldsDone) => true,
        (DeployPhase::Reading { .. }, DeployEvent::MultipartFailed) => true,
        (DeployPhase::StoringBinary { .. }, DeployEvent::BinaryStored(_)) => true,
        (DeployPhase::CreatingRecord { .. }, DeployEvent::RecordCreated(_)) => true,
        (DeployPhase::AllocatingPort { .. }, DeployEvent::PortAllocated(_)) => true,
        (DeployPhase::CreatingContainer { .. }, DeployEvent::ContainerCreated(_)) => true,
        (DeployPhase::UpdatingRecord { .. }, DeployEvent::RecordUpdated(_)) => true,
        _ => false,
    }
}

/// The failure that ends a deployment.
pub open spec fn ends_with(next: DeployPhase, action: DeployAction, failure: Failure) -> bool {
    next is Finished && action == DeployAction::Reply(Err(failure))
}

/// One step of a deployment whose containers run `base_image`.
pub open spec fn deploy_next(
    base_image: Seq<char>,
    phase: DeployPhase,
    event: DeployEvent,
    next: DeployPhase,
    action: DeployAction,
) -> bool {
    match (phase, event) {
        (DeployPhase::Reading { content }, DeployEvent::FieldRead(bytes)) => {
            &&& next matches DeployPhase::Reading { content: more } && more@ == content@ + bytes@
            &&& action is ReadField
        },
        (DeployPhase::Reading { content }, DeployEvent::FieldsDone) => {
            &&& next matches DeployPhase::StoringBinary { function_id: id } && is_uuid_v4_text(
                id@,
            )
            &&& action matches DeployAction::StoreBinary { function_id, content: stored }
            &&& next->StoringBinary_function_id@ == function_id@
            &&& stored@ == content@
        },
        (DeployPhase::Reading { .. }, DeployEvent::MultipartFailed) => ends_with(
            next,
            action,
            Failure::BadRequest,
        ),
        (DeployPhase::StoringBinary { function_id: id }, DeployEvent::BinaryStored(stored)) => {
            match stored {
                Err(_) => ends_with(next, action, Failure::InternalServerError),
                Ok(path) => {
                    &&& next matches DeployPhase::CreatingRecord { binary_path } && binary_path@
                        == (match path {
                        Some(p) => p@,
                        None => Seq::<char>::empty(),
                    })
                    &&& action matches DeployAction::CreateRecord { function_id } && function_id@
                        == id@
                },
            }
        },
        (DeployPhase::CreatingRecord { binary_path }, DeployEvent::RecordCreated(record)) => {
            match record {
                None => ends_with(next, action, Failure::InternalServerError),
                Some(f) => {
                    &&& next == DeployPhase::AllocatingPort { function_id: f.id, binary_path }
                    &&& action is AllocatePort
                },
            }
        },
        (DeployPhase::AllocatingPort { function_id, binary_path }, DeployEvent::PortAllocated(
            port,
        )) => {
            &&& next == DeployPhase::CreatingContainer { function_id, port }
            &&& action matches DeployAction::CreateContainer(plan) && is_plan_for(
                plan,
                base_image,
                function_id@,
                port,
                binary_path@,
            )
        },
        (DeployPhase::CreatingContainer { function_id, port }, DeployEvent::ContainerCreated(
            created,
        )) => {
            match created {
                None => ends_with(next, action, Failure::InternalServerError),
                Some(container_id) => {
                    &&& next matches DeployPhase::UpdatingRecord { function_id: id } && id@
                        == function_id@
                    &&& action matches DeployAction::UpdateRecord {
                        function_id: fid,
                        container_id: cid,
                        port: p,
                    } && fid@ == function_id@ && cid@ == container_id@ && p == port
                },
            }
        },
        (DeployPhase::UpdatingRecord { function_id }, DeployEvent::RecordUpdated(updated)) => {
            if updated {
                &&& next is Finished
                &&& action matches DeployAction::Reply(Ok(id)) && id@ == function_id@
            } else {
                ends_with(next, action, Failure::InternalServerError)
            }
        },
        _ => ends_with(next, action, Failure::InternalServerError),
    }
}

impl Deploy {
    /// Begins a deployment: the first field of the upload is read.
    pub fn new(base_image: String) -> (r: (Deploy, DeployAction))
        ensures
            r.0.base_image == base_image,
            r.0.phase matches DeployPhase::Reading { content } && content@ == Seq::<u8>::empty(),
            r.1 is ReadField,
    {
        (Deploy { base_image, phase: DeployPhase::Reading { content: Vec::new() } }, DeployAction::ReadField)
    }

    /// Takes one step. An event that does not answer the current phase ends
    /// the deployment with an internal error.
    pub fn step(self, event: DeployEvent) -> (r: (Deploy, DeployAction))
        ensures
            r.0.base_image == self.base_image,
            deploy_next(self.base_image@, self.phase, event, r.0.phase, r.1),
    {
        let base_image = self.base_image;
        let (phase, action) = match (self.phase, event) {
            (DeployPhase::Reading { content }, DeployEvent::FieldRead(bytes)) => {
                let mut content = content;
                let mut bytes = bytes;
                content.append(&mut bytes);
                (DeployPhase::Reading { content }, DeployAction::ReadField)
            },
            (DeployPhase::Reading { content }, DeployEvent::FieldsDone) => {
                let function_id = new_function_id();
                let stored_id = function_id.clone();
                (
                    DeployPhase::StoringBinary { function_id },
                    DeployAction::StoreBinary { function_id: stored_id, content },
                )
            },
            (DeployPhase::Reading { .. }, DeployEvent::MultipartFailed) => {
                (DeployPhase::Finished, DeployAction::Reply(Err(Failure::BadRequest)))
            },
            (DeployPhase::StoringBinary { function_id }, DeployEvent::BinaryStored(stored)) => {
                match stored {
                    Err(_) => (
                        DeployPhase::Finished,
                        DeployAction::Reply(Err(Failure::InternalServerError)),
                    ),
                    Ok(path) => {
                        let binary_path = match path {
                            Some(p) => p,
                            None => String::new(),
                        };
                        (
                            DeployPhase::CreatingRecord { binary_path },
                            DeployAction::CreateRecord { function_id },
                        )
                    },
                }
            },
            (DeployPhase::CreatingRecord { binary_path }, DeployEvent::RecordCreated(record)) => {
                match record {
                    None => (
                        DeployPhase::Finished,
                        DeployAction::Reply(Err(Failure::InternalServerError)),
                    ),
                    Some(f) => (
                        DeployPhase::AllocatingPort { function_id: f.id, binary_path },
                        DeployAction::AllocatePort,
                    ),
                }
            },
            (
                DeployPhase::AllocatingPort { function_id, binary_path },
                DeployEvent::PortAllocated(port),
            ) => {
                let plan = container_plan(
                    base_image.as_str(),
                    function_id.as_str(),
                    port,
                    binary_path.as_str(),
                );
                (
                    DeployPhase::CreatingContainer { function_id, port },
                    DeployAction::CreateContainer(plan),
                )
            },
            (
                DeployPhase::CreatingContainer { function_id, port },
                DeployEvent::ContainerCreated(created),
            ) => {
                match created {
                    None => (
                        DeployPhase::Finished,
                        DeployAction::Reply(Err(Failure::InternalServerError)),
                    ),
                    Some(container_id) => {
                        let fid = function_id.clone();
                        (
                            DeployPhase::UpdatingRecord { function_id },
                            DeployAction::UpdateRecord { function_id: fid, container_id, port },
                        )
                    },
                }
            },
            (DeployPhase::UpdatingRecord { function_id }, DeployEvent::RecordUpdated(updated)) => {
                if updated {
                    (DeployPhase::Finished, DeployAction::Reply(Ok(function_id)))
                } else {
                    (
                        DeployPhase::Finished,
                        DeployAction::Reply(Err(Failure::InternalServerError)),
                    )
                }
            },
            _ => (DeployPhase::Finished, DeployAction::Reply(Err(Failure::InternalServerError))),
        };
        (Deploy { base_image, phase }, action)
    }
}

/// `phases[i]` steps to `phases[i + 1]` on `events[i]`, asking for `actions[i]`.
pub open spec fn is_deploy_run(
    base_image: Seq<char>,
    phases: Seq<DeployPhase>,
    events: Seq<DeployEvent>,
    actions: Seq<DeployAction>,
) -> bool {
    &&& phases.len() == events.len() + 1
    &&& actions.len() == events.len()
    &&& forall|i: int|
        #![trigger events[i]]
        0 <= i < events.len() ==> deploy_next(
            base_image,
            phases[i],
            events[i],
            phases[i + 1],
            actions[i],
        )
}

/// The bytes of all `bodies`, in order.
pub open spec fn concat_all(bodies: Seq<Vec<u8>>) -> Seq<u8>
    decreases bodies.len(),
{
    if bodies.len() == 0 {
        Seq::empty()
    } else {
        concat_all(bodies.drop_last()) + bodies.last()@
    }
}

proof fn lemma_reading_prefix(
    base_image: Seq<char>,
    phases: Seq<DeployPhase>,
    events: Seq<DeployEvent>,
    actions: Seq<DeployAction>,
    bodies: Seq<Vec<u8>>,
    k: int,
)
    requires
        is_deploy_run(base_image, phases, events, actions),
        phases[0] matches DeployPhase::Reading { content } && content@ == Seq::<u8>::empty(),
        bodies.len() < events.len(),
        forall|i: int| 0 <= i < bodies.len() ==> events[i] == DeployEvent::FieldRead(bodies[i]),
        0 <= k <= bodies.len(),
    ensures
        phases[k] matches DeployPhase::Reading { content } && content@ == concat_all(
            bodies.take(k),
        ),
    decreases k,
{
    if k == 0 {
        assert(bodies.take(0) =~= Seq::<Vec<u8>>::empty());
    } else {
        lemma_reading_prefix(base_image, phases, events, actions, bodies, k - 1);
        assert(events[k - 1] == DeployEvent::FieldRead(bodies[k - 1]));
        assert(deploy_next(base_image, phases[k - 1], events[k - 1], phases[k], actions[k - 1]));
        assert(bodies.take(k).drop_last() =~= bodies.take(k - 1));
    }
}

/// The binary stored for a deployment is the bytes of all uploaded fields,
/// in the order they were read.
pub proof fn lemma_upload_is_stored_whole(
    base_image: Seq<char>,
    phases: Seq<DeployPhase>,
    events: Seq<DeployEvent>,
    actions: Seq<DeployAction>,
    bodies: Seq<Vec<u8>>,
)
    requires
        is_deploy_run(base_image, phases, events, actions),
        phases[0] matches DeployPhase::Reading { content } && content@ == Seq::<u8>::empty(),
        events.len() == bodies.len() + 1,
        forall|i: int| 0 <= i < bodies.len() ==> events[i] == DeployEvent::FieldRead(bodies[i]),
        events.last() is FieldsDone,
    ensures
        actions.last() matches DeployAction::StoreBinary { content, .. } && content@
            == concat_all(bodies),
{
    let n = bodies.len() as int;
    lemma_reading_prefix(base_image, phases, events, actions, bodies, n);
    assert(bodies.take(n) =~= bodies);
    assert(deploy_next(base_image, phases[n], events[n], phases[n + 1], actions[n]));
}

/// A deployment never answers "not found"; a well-ordered one fails with
/// "bad request" exactly while the upload is being read, and with
/// "internal server error" afterwards.
pub proof fn lemma_deploy_failure_kinds(
    base_image: Seq<char>,
    phase: DeployPhase,
    event: DeployEvent,
    next: DeployPhase,
    action: DeployAction,
)
    requires
        deploy_next(base_image, phase, event, next, action),
    ensures
        action matches DeployAction::Reply(Err(f)) ==> f != Failure::NotFound,
        answers(phase, event) ==> (action matches DeployAction::Reply(Err(f)) ==> (f
            == Failure::BadRequest <==> phase is Reading)),
{
}

/// The id carried by a phase after the record was created.
pub open spec fn recorded_id(phase: DeployPhase) -> Option<Seq<char>> {
    match phase {
        DeployPhase::AllocatingPort { function_id, .. } => Some(function_id@),
        DeployPhase::CreatingContainer { function_id, .. } => Some(function_id@),
        DeployPhase::UpdatingRecord { function_id } => Some(function_id@),
        _ => None,
    }
}

/// The event is a created record with id `id`.
pub open spec fn creates_record(event: DeployEvent, id: Seq<char>) -> bool {
    event matches DeployEvent::RecordCreated(Some(f)) && f.id@ == id
}

/// Some event before `i` is a created record with id `id`.
pub open spec fn recorded_before(events: Seq<DeployEvent>, i: int, id: Seq<char>) -> bool {
    exists|k: int| 0 <= k < i && #[trigger] creates_record(events[k], id)
}

proof fn lemma_recorded_ids(
    base_image: Seq<char>,
    phases: Seq<DeployPhase>,
    events: Seq<DeployEvent>,
    actions: Seq<DeployAction>,
    i: int,
)
    requires
        is_deploy_run(base_image, phases, events, actions),
        phases[0] is Reading,
        0 <= i < phases.len(),
    ensures
        recorded_id(phases[i]) matches Some(id) ==> recorded_before(events, i, id),
    decreases i,
{
    if i > 0 {
        lemma_recorded_ids(base_image, phases, events, actions, i - 1);
        assert(deploy_next(base_image, phases[i - 1], events[i - 1], phases[i], actions[i - 1]));
        if let Some(id) = recorded_id(phases[i]) {
            if let Some(prev) = recorded_id(phases[i - 1]) {
                let k = choose|k: int| 0 <= k < i - 1 && #[trigger] creates_record(events[k], prev);
                assert(0 <= k < i && creates_record(events[k], id));
            } else {
                assert(creates_record(events[i - 1], id));
            }
        }
    }
}

/// A deployment that succeeds answers with the id of the record that the
/// store created for it.
pub proof fn lemma_deployed_under_recorded_id(
    base_image: Seq<char>,
    phases: Seq<DeployPhase>,
    events: Seq<DeployEvent>,
    actions: Seq<DeployAction>,
    id: String,
)
    requires
        is_deploy_run(base_image, phases, events, actions),
        phases[0] is Reading,
        actions.len() > 0,
        actions.last() == DeployAction::Reply(Ok(id)),
    ensures
        recorded_before(events, events.len() as int, id@),
{
    let n = events.len() - 1;
    assert(deploy_next(base_image, phases[n], events[n], phases[n + 1], actions[n]));
    lemma_recorded_ids(base_image, phases, events, actions, n);
    let prev = recorded_id(phases[n])->0;
    let k = choose|k: int| 0 <= k < n && #[trigger] creates_record(events[k], prev);
    assert(0 <= k < events.len() && creates_record(events[k], id@));
}

/// A function deployed under a fresh id is invoked through
/// `/invoke/<id>` followed by nothing or by a path that starts with `/`:
/// the request names that function and forwards exactly that path.
pub proof fn lemma_fresh_id_is_invocable(function_id: Seq<char>, path: Seq<char>)
    requires
        is_uuid_v4_text(function_id),
        path.len() == 0 || path[0] == '/',
    ensures
        routed_function_id(invoke_prefix(function_id) + path) == Some(function_id),
        routed_forward_path(invoke_prefix(function_id) + path, function_id) == path,
{
    lemma_uuid_text_has_no_slash(function_id);
    lemma_invoke_path_reaches_function(function_id, path);
}

} // verus!
