//! Invocation of a deployed function: routing of the request path, the
//! upstream address, the forwarded headers, and the order of the calls to
//! the container engine and the store, as a machine that the server drives.
use vstd::prelude::*;
use crate::containers::{function_port, ContainerSummary};
use crate::records::DeployedFunction;
use crate::reply::Failure;
use crate::text::{
    lacks,
    lemma_split_concat,
    lemma_split_without_sep,
    nth_piece,
    same_text,
    signed_decimal,
    signed_decimal_text,
    split_nth,
    split_pieces,
    strip_prefix,
    stripped,
};

verus! {

/// The view of an optional text.
pub open spec fn opt_text(o: Option<String>) -> Option<Seq<char>> {
    match o {
        Some(s) => Some(s@),
        None => None,
    }
}

/// The prefix of the paths that invoke `function_id`.
pub open spec fn invoke_prefix(function_id: Seq<char>) -> Seq<char> {
    "/invoke/"@ + function_id
}

/// The function that a request path names: its third `/`-separated piece,
/// as in `/invoke/<function-id>/...`.
pub open spec fn routed_function_id(path: Seq<char>) -> Option<Seq<char>> {
    nth_piece(path, '/', 2)
}

/// The path forwarded to the function: what follows `/invoke/<function-id>`,
/// or `/` when the path does not start with it.
pub open spec fn routed_forward_path(path: Seq<char>, function_id: Seq<char>) -> Seq<char> {
    match stripped(path, invoke_prefix(function_id)) {
        Some(rest) => rest,
        None => "/"@,
    }
}

/// The address the request is forwarded to: the function's port on the
/// local host (the port functions serve on when the record names none), the
/// forwarded path, and the query when there is one.
pub open spec fn upstream_address(
    port: Option<i32>,
    forward_path: Seq<char>,
    query: Option<Seq<char>>,
) -> Seq<char> {
    let port_number: int = match port {
        Some(p) => p as int,
        None => function_port(),
    };
    let base = "http://localhost:"@ + signed_decimal(port_number) + forward_path;
    match query {
        Some(q) => base + "?"@ + q,
        None => base,
    }
}

/// The function a request path names, if it names one.
pub fn route_function_id(path: &str) -> (r: Option<String>)
    ensures
        opt_text(r) == routed_function_id(path@),
{
    split_nth(path, '/', 2)
}

/// The path forwarded to `function_id` for a request path.
pub fn route_forward_path(path: &str, function_id: &str) -> (r: String)
    ensures
        r@ == routed_forward_path(path@, function_id@),
{
    let prefix = String::from_str("/invoke/").concat(function_id);
    match strip_prefix(path, prefix.as_str()) {
        Some(rest) => rest,
        None => String::from_str("/"),
    }
}

/// The address the request is forwarded to.
pub fn upstream_uri(port: Option<i32>, forward_path: &str, query: &Option<String>) -> (r: String)
    ensures
        r@ == upstream_address(port, forward_path@, opt_text(*query)),
{
    let port_number: i64 = match port {
        Some(p) => p as i64,
        None => 8080,
    };
    let digits = signed_decimal_text(port_number);
    let base = String::from_str("http://localhost:").concat(digits.as_str()).concat(forward_path);
    match query {
        Some(q) => base.concat("?").concat(q.as_str()),
        None => base,
    }
}

/// The headers of the incoming request that are forwarded: those given
/// with a name, in order. A header listed without a name (a further value
/// of the header before it) is left out.
pub open spec fn kept_headers<V>(headers: Seq<(Option<String>, V)>) -> Seq<(String, V)>
    decreases headers.len(),
{
    if headers.len() == 0 {
        Seq::empty()
    } else {
        let kept = kept_headers(headers.drop_last());
        match headers.last().0 {
            Some(name) => kept.push((name, headers.last().1)),
            None => kept,
        }
    }
}

/// The header that tells a function its own id.
pub open spec fn function_id_header() -> Seq<char> {
    "x-faas-function-id"@
}

/// The headers of the forwarded request: the kept headers of the incoming
/// one, then the function-id header with `function_id_value`.
pub fn forward_headers<V>(headers: Vec<(Option<String>, V)>, function_id_value: V) -> (r: Vec<
    (String, V),
>)
    ensures
        r@.len() == kept_headers(headers@).len() + 1,
        r@.drop_last() == kept_headers(headers@),
        r@.last().0@ == function_id_header(),
        r@.last().1 == function_id_value,
        r@.len() == named_entries(headers@).len() + 1,
        forall|i: int|
            0 <= i < headers@.len() && (#[trigger] headers@[i]).0 is Some ==> r@[named_entries(
                headers@.take(i),
            ).len() as int] == (headers@[i].0->0, headers@[i].1),
{
    let ghost all = headers@;
    let mut rest = headers;
    let mut out: Vec<(String, V)> = Vec::new();
    let mut i: usize = 0;
    let total = rest.len();
    proof {
        assert(all.take(0) =~= Seq::<(Option<String>, V)>::empty());
    }
    while rest.len() > 0
        invariant
            total == all.len(),
            i <= all.len(),
            i + rest@.len() == all.len(),
            rest@ == all.skip(i as int),
            out@ == kept_headers(all.take(i as int)),
        decreases rest.len(),
    {
        let (name, value) = rest.remove(0);
        proof {
            assert(all.take(i + 1).drop_last() =~= all.take(i as int));
            assert(all.take(i + 1).last() == all[i as int]);
            assert(rest@ =~= all.skip(i + 1));
        }
        match name {
            Some(n) => {
                out.push((n, value));
            },
            None => {},
        }
        i = i + 1;
    }
    proof {
        assert(all.take(i as int) =~= all);
    }
    let ghost kept = out@;
    out.push((String::from_str("x-faas-function-id"), function_id_value));
    proof {
        assert(out@.drop_last() =~= kept);
        lemma_kept_headers_are_the_named_entries(all);
        assert forall|i: int|
            0 <= i < all.len() && (#[trigger] all[i]).0 is Some implies out@[named_entries(
                all.take(i),
            ).len() as int] == (all[i].0->0, all[i].1) by {
            assert(out@[named_entries(all.take(i)).len() as int] == kept[named_entries(
                all.take(i),
            ).len() as int]);
        }
    }
    out
}

/// Where an invocation is routed.
pub struct InvokeRoute {
    pub function_id: String,
    pub forward_path: String,
    pub query: Option<String>,
}

/// The stages of an invocation.
pub enum InvokeState {
    /// Waiting for the function's containers.
    ListingContainers(InvokeRoute),
    /// Waiting for the function's container to start.
    StartingContainer(InvokeRoute),
    /// Waiting for the function's record.
    LoadingFunction(InvokeRoute),
    /// Waiting for the function's answer.
    Forwarding,
    /// Nothing is left to do.
    Finished,
}

/// What came back from the work an action asked for.
pub enum InvokeEvent {
    /// The containers of the function; `None` when the listing failed.
    ContainersListed(Option<Vec<ContainerSummary>>),
    /// Whether the container started.
    ContainerStarted(bool),
    /// The function's record, if the store has one.
    FunctionLoaded(Option<DeployedFunction>),
    /// Whether the forwarded request was built and answered.
    Forwarded(bool),
}

/// The work the server does next.
pub enum InvokeAction {
    ListContainers { function_id: String },
    StartContainer { container_id: String },
    LoadFunction { function_id: String },
    /// Forward the request to `uri`, with the function-id header set to `function_id`.
    Forward { uri: String, function_id: String },
    /// Answer with the function's response.
    Respond,
    /// Answer with the failure.
    Fail(Failure),
}

/// The start of an invocation of a request with the given path and query:
/// the request must name a function.
pub open spec fn invoke_begins(
    path_and_query: Option<(Seq<char>, Option<Seq<char>>)>,
    state: InvokeState,
    action: InvokeAction,
) -> bool {
    match path_and_query {
        None => state is Finished && action == InvokeAction::Fail(Failure::NotFound),
        Some((path, query)) => match routed_function_id(path) {
            None => state is Finished && action == InvokeAction::Fail(Failure::NotFound),
            Some(id) => {
                &&& state matches InvokeState::ListingContainers(route)
                &&& route.function_id@ == id
                &&& route.forward_path@ == routed_forward_path(path, id)
                &&& opt_text(route.query) == query
                &&& action matches InvokeAction::ListContainers { function_id } && function_id@
                    == id
            },
        },
    }
}

/// The listed containers, none when the listing failed.
pub open spec fn listed(containers: Option<Vec<ContainerSummary>>) -> Seq<ContainerSummary> {
    match containers {
        Some(cs) => cs@,
        None => Seq::empty(),
    }
}

/// One step of an invocation.
pub open spec fn invoke_next(
    state: InvokeState,
    event: InvokeEvent,
    next: InvokeState,
    action: InvokeAction,
) -> bool {
    match (state, event) {
        (InvokeState::ListingContainers(route), InvokeEvent::ContainersListed(containers)) => {
            let cs = listed(containers);
            if cs.len() == 0 {
                next is Finished && action == InvokeAction::Fail(Failure::NotFound)
            } else if cs[0].state@ != "running"@ {
                &&& next == InvokeState::StartingContainer(route)
                &&& action matches InvokeAction::StartContainer { container_id } && container_id@
                    == cs[0].id@
            } else {
                &&& next == InvokeState::LoadingFunction(route)
                &&& action matches InvokeAction::LoadFunction { function_id } && function_id@
                    == route.function_id@
            }
        },
        (InvokeState::StartingContainer(route), InvokeEvent::ContainerStarted(started)) => {
            if started {
                &&& next == InvokeState::LoadingFunction(route)
                &&& action matches InvokeAction::LoadFunction { function_id } && function_id@
                    == route.function_id@
            } else {
                next is Finished && action == InvokeAction::Fail(Failure::InternalServerError)
            }
        },
        (InvokeState::LoadingFunction(route), InvokeEvent::FunctionLoaded(record)) => {
            match record {
                None => next is Finished && action == InvokeAction::Fail(Failure::NotFound),
                Some(f) => {
                    &&& next is Forwarding
                    &&& action matches InvokeAction::Forward { uri, function_id }
                    &&& uri@ == upstream_address(
                        f.exposed_port,
                        route.forward_path@,
                        opt_text(route.query),
                    )
                    &&& function_id@ == route.function_id@
                },
            }
        },
        (InvokeState::Forwarding, InvokeEvent::Forwarded(answered)) => {
            &&& next is Finished
            &&& action == (if answered {
                InvokeAction::Respond
            } else {
                InvokeAction::Fail(Failure::InternalServerError)
            })
        },
        _ => next is Finished && action == InvokeAction::Fail(Failure::InternalServerError),
    }
}

/// Begins the invocation of a request; `None` stands for a request without
/// a path.
pub fn invoke_start(path_and_query: Option<(&str, Option<&str>)>) -> (r: (
    InvokeState,
    InvokeAction,
))
    ensures
        invoke_begins(
            match path_and_query {
                Some((p, q)) => Some(
                    (
                        p@,
                        match q {
                            Some(t) => Some(t@),
                            None => None,
                        },
                    ),
                ),
                None => None,
            },
            r.0,
            r.1,
        ),
{
    match path_and_query {
        None => (InvokeState::Finished, InvokeAction::Fail(Failure::NotFound)),
        Some((path, query)) => match route_function_id(path) {
            None => (InvokeState::Finished, InvokeAction::Fail(Failure::NotFound)),
            Some(function_id) => {
                let forward_path = route_forward_path(path, function_id.as_str());
                let query = match query {
                    Some(q) => Some(String::from_str(q)),
                    None => None,
                };
                let action = InvokeAction::ListContainers { function_id: function_id.clone() };
                (InvokeState::ListingContainers(InvokeRoute { function_id, forward_path, query }), action)
            },
        },
    }
}

/// Takes one step of an invocation. An event that does not answer the
/// current stage ends it with an internal error.
pub fn invoke_step(state: InvokeState, event: InvokeEvent) -> (r: (InvokeState, InvokeAction))
    ensures
        invoke_next(state, event, r.0, r.1),
{
    match (state, event) {
        (InvokeState::ListingContainers(route), InvokeEvent::ContainersListed(containers)) => {
            let cs = match containers {
                Some(cs) => cs,
                None => Vec::new(),
            };
            if cs.len() == 0 {
                (InvokeState::Finished, InvokeAction::Fail(Failure::NotFound))
            } else if !same_text(cs[0].state.as_str(), "running") {
                let container_id = cs[0].id.clone();
                (InvokeState::StartingContainer(route), InvokeAction::StartContainer { container_id })
            } else {
                let function_id = route.function_id.clone();
                (InvokeState::LoadingFunction(route), InvokeAction::LoadFunction { function_id })
            }
        },
        (InvokeState::StartingContainer(route), InvokeEvent::ContainerStarted(started)) => {
            if started {
                let function_id = route.function_id.clone();
                (InvokeState::LoadingFunction(route), InvokeAction::LoadFunction { function_id })
            } else {
                (InvokeState::Finished, InvokeAction::Fail(Failure::InternalServerError))
            }
        },
        (InvokeState::LoadingFunction(route), InvokeEvent::FunctionLoaded(record)) => {
            match record {
                None => (InvokeState::Finished, InvokeAction::Fail(Failure::NotFound)),
                Some(f) => {
                    let uri = upstream_uri(f.exposed_port, route.forward_path.as_str(), &route.query);
                    (
                        InvokeState::Forwarding,
                        InvokeAction::Forward { uri, function_id: route.function_id },
                    )
                },
            }
        },
        (InvokeState::Forwarding, InvokeEvent::Forwarded(answered)) => {
            if answered {
                (InvokeState::Finished, InvokeAction::Respond)
            } else {
                (InvokeState::Finished, InvokeAction::Fail(Failure::InternalServerError))
            }
        },
        _ => (InvokeState::Finished, InvokeAction::Fail(Failure::InternalServerError)),
    }
}

/// An invocation fails with "not found" or "internal server error", never
/// with "bad request"; "not found" comes only from a request that names no
/// function, a function without containers, or one without a record.
pub proof fn lemma_invoke_failure_kinds(
    state: InvokeState,
    event: InvokeEvent,
    next: InvokeState,
    action: InvokeAction,
)
    requires
        invoke_next(state, event, next, action),
    ensures
        action matches InvokeAction::Fail(f) ==> f != Failure::BadRequest,
        action == InvokeAction::Fail(Failure::NotFound) ==> (state is ListingContainers
            && event is ContainersListed) || (state is LoadingFunction && event is FunctionLoaded),
        next is Finished || !(action is Fail),
{
}

/// A start fails only with "not found".
pub proof fn lemma_invoke_start_failure(
    path_and_query: Option<(Seq<char>, Option<Seq<char>>)>,
    state: InvokeState,
    action: InvokeAction,
)
    requires
        invoke_begins(path_and_query, state, action),
    ensures
        action matches InvokeAction::Fail(f) ==> f == Failure::NotFound,
        action is Fail <==> match path_and_query {
            None => true,
            Some((path, _)) => routed_function_id(path) is None,
        },
{
}

/// The entries of a header list that carry a name.
pub open spec fn named_entries<V>(headers: Seq<(Option<String>, V)>) -> Seq<(Option<String>, V)> {
    headers.filter(|h: (Option<String>, V)| h.0 is Some)
}

/// Every incoming entry with a name is forwarded, in order and none other:
/// the kept headers are as many as the named entries, and the entry at
/// index `i` with name `n` is kept at the position given by the number of
/// named entries before it.
pub proof fn lemma_kept_headers_are_the_named_entries<V>(headers: Seq<(Option<String>, V)>)
    ensures
        kept_headers(headers).len() == named_entries(headers).len(),
        forall|i: int|
            0 <= i < headers.len() && (#[trigger] headers[i]).0 is Some ==> {
                &&& named_entries(headers.take(i)).len() < kept_headers(headers).len()
                &&& kept_headers(headers)[named_entries(headers.take(i)).len() as int] == (
                    headers[i].0->0,
                    headers[i].1,
                )
            },
    decreases headers.len(),
{
    reveal(Seq::filter);
    if headers.len() > 0 {
        let before = headers.drop_last();
        let n = headers.len() - 1;
        lemma_kept_headers_are_the_named_entries(before);
        assert(headers.drop_last() == before);
        assert forall|i: int|
            0 <= i < headers.len() && (#[trigger] headers[i]).0 is Some implies {
                &&& named_entries(headers.take(i)).len() < kept_headers(headers).len()
                &&& kept_headers(headers)[named_entries(headers.take(i)).len() as int] == (
                    headers[i].0->0,
                    headers[i].1,
                )
            } by {
            if i == n {
                assert(headers.take(i) =~= before);
            } else {
                assert(headers.take(i) =~= before.take(i));
                assert(before[i] == headers[i]);
            }
        }
    }
}

/// A listing whose first container is in any state other than `running`
/// starts that container; one whose first container is `running` goes
/// straight to loading the function's record.
pub proof fn lemma_first_container_started_unless_running(
    route: InvokeRoute,
    containers: Vec<ContainerSummary>,
    next: InvokeState,
    action: InvokeAction,
)
    requires
        containers@.len() > 0,
        invoke_next(
            InvokeState::ListingContainers(route),
            InvokeEvent::ContainersListed(Some(containers)),
            next,
            action,
        ),
    ensures
        containers@[0].state@ != "running"@ ==> next == InvokeState::StartingContainer(route)
            && (action matches InvokeAction::StartContainer { container_id } && container_id@
            == containers@[0].id@),
        containers@[0].state@ == "running"@ ==> next == InvokeState::LoadingFunction(route)
            && (action matches InvokeAction::LoadFunction { function_id } && function_id@
            == route.function_id@),
{
}

/// The invocation of a request whose path is `/invoke/<id>` followed by
/// nothing or by a path that starts with `/`, where `<id>` holds no `/`,
/// lists the containers of `<id>` and forwards exactly the path after it,
/// with the request's query.
pub proof fn lemma_start_routes_to_named_function(
    function_id: Seq<char>,
    rest: Seq<char>,
    query: Option<Seq<char>>,
    state: InvokeState,
    action: InvokeAction,
)
    requires
        lacks(function_id, '/'),
        rest.len() == 0 || rest[0] == '/',
        invoke_begins(Some(("/invoke/"@ + function_id + rest, query)), state, action),
    ensures
        state matches InvokeState::ListingContainers(route) && route.function_id@ == function_id
            && route.forward_path@ == rest && opt_text(route.query) == query,
        action matches InvokeAction::ListContainers { function_id: listed } && listed@
            == function_id,
{
    lemma_invoke_path_reaches_function(function_id, rest);
    assert(invoke_prefix(function_id) + rest == "/invoke/"@ + function_id + rest);
}

/// A function whose id holds no `/` is reached through `/invoke/<id>`
/// followed by nothing or by a path that starts with `/`: the request names
/// that function and forwards exactly that path.
pub proof fn lemma_invoke_path_reaches_function(function_id: Seq<char>, path: Seq<char>)
    requires
        lacks(function_id, '/'),
        path.len() == 0 || path[0] == '/',
    ensures
        routed_function_id(invoke_prefix(function_id) + path) == Some(function_id),
        routed_forward_path(invoke_prefix(function_id) + path, function_id) == path,
{
    reveal_strlit("/invoke/");
    let word = seq!['i', 'n', 'v', 'o', 'k', 'e'];
    let whole = invoke_prefix(function_id) + path;
    lemma_split_without_sep(word, '/');
    lemma_split_without_sep(function_id, '/');
    let tail_pieces = if path.len() == 0 {
        assert(function_id + path =~= function_id);
        split_pieces(function_id, '/')
    } else {
        let after = path.drop_first();
        assert(function_id + path =~= function_id + seq!['/'] + after);
        lemma_split_concat(function_id, after, '/');
        split_pieces(function_id, '/') + split_pieces(after, '/')
    };
    assert(split_pieces(function_id + path, '/') == tail_pieces);
    assert(tail_pieces[0] == function_id);
    assert(whole =~= Seq::<char>::empty() + seq!['/'] + (word + seq!['/'] + (function_id + path)));
    lemma_split_concat(word, function_id + path, '/');
    lemma_split_concat(Seq::<char>::empty(), word + seq!['/'] + (function_id + path), '/');
    assert(split_pieces(Seq::<char>::empty(), '/') == seq![Seq::<char>::empty()]);
    assert(split_pieces(whole, '/')[2] == function_id);
    assert(invoke_prefix(function_id).is_prefix_of(whole));
    assert(whole.skip(invoke_prefix(function_id).len() as int) =~= path);
}

} // verus!
