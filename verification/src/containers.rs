//! What the gateway asks of the container engine: which containers belong
//! to a function, and how a function's container is made.
use vstd::prelude::*;

verus! {

/// The fields of a listed container that the gateway reads.
pub struct ContainerSummary {
    pub id: String,
    /// The engine's state word, such as `running` or `exited`.
    pub state: String,
}

/// A condition of a container listing.
pub enum ContainerFilterSpec {
    /// Containers in the given state.
    Status(String),
    /// Containers carrying the label with the given value.
    Label(String, String),
    /// Containers carrying the label, whatever its value.
    LabelName(String),
}

/// The label that marks containers made by this gateway, and its value.
pub open spec fn version_label() -> (Seq<char>, Seq<char>) {
    ("hello-faas-version"@, "v1"@)
}

/// The label that names the function a container serves.
pub open spec fn function_label() -> Seq<char> {
    "function-id"@
}

/// The filters that select the containers of `function_id`: the gateway's
/// version label, and the function label with `function_id` as its value.
pub open spec fn is_function_filters(fs: Seq<ContainerFilterSpec>, function_id: Seq<char>) -> bool {
    &&& fs.len() == 2
    &&& fs[0] matches ContainerFilterSpec::Label(k, v) && k@ == version_label().0 && v@
        == version_label().1
    &&& fs[1] matches ContainerFilterSpec::Label(k, v) && k@ == function_label() && v@
        == function_id
}

/// The filters that select idle containers: exited, made by this gateway,
/// and serving some function.
pub open spec fn is_idle_filters(fs: Seq<ContainerFilterSpec>) -> bool {
    &&& fs.len() == 3
    &&& fs[0] matches ContainerFilterSpec::Status(s) && s@ == "exited"@
    &&& fs[1] matches ContainerFilterSpec::Label(k, v) && k@ == version_label().0 && v@
        == version_label().1
    &&& fs[2] matches ContainerFilterSpec::LabelName(k) && k@ == function_label()
}

fn version_label_filter() -> (r: ContainerFilterSpec)
    ensures
        r matches ContainerFilterSpec::Label(k, v) && k@ == version_label().0 && v@
            == version_label().1,
{
    ContainerFilterSpec::Label(String::from_str("hello-faas-version"), String::from_str("v1"))
}

/// The filters of the listing of the containers that serve `function_id`.
pub fn function_filters(function_id: &str) -> (r: Vec<ContainerFilterSpec>)
    ensures
        is_function_filters(r@, function_id@),
{
    let mut fs = Vec::new();
    fs.push(version_label_filter());
    fs.push(
        ContainerFilterSpec::Label(String::from_str("function-id"), String::from_str(function_id)),
    );
    fs
}

/// The filters of the listing of idle containers.
pub fn idle_filters() -> (r: Vec<ContainerFilterSpec>)
    ensures
        is_idle_filters(r@),
{
    let mut fs = Vec::new();
    fs.push(ContainerFilterSpec::Status(String::from_str("exited")));
    fs.push(version_label_filter());
    fs.push(ContainerFilterSpec::LabelName(String::from_str("function-id")));
    fs
}

/// The id of the first container of a listing, if there is one.
pub fn first_container_id(containers: &Vec<ContainerSummary>) -> (r: Option<String>)
    ensures
        r is Some <==> containers@.len() > 0,
        r matches Some(id) ==> id@ == containers@[0].id@,
{
    if containers.len() == 0 {
        None
    } else {
        Some(containers[0].id.clone())
    }
}

/// The name of the container of `function_id`.
pub open spec fn container_name(function_id: Seq<char>) -> Seq<char> {
    "hello-faas-"@ + function_id
}

/// Where a function's binary is found inside its container, and the
/// command that the container runs.
pub open spec fn entry_point() -> Seq<char> {
    "/bootstrap"@
}

/// The port on which a function serves inside its container.
pub open spec fn function_port() -> int {
    8080
}

/// How the container of a function is made.
pub struct ContainerPlan {
    pub image: String,
    pub name: String,
    /// Labels as (name, value) pairs.
    pub labels: Vec<(String, String)>,
    pub command: Vec<String>,
    /// The port the function serves on inside the container.
    pub container_port: u16,
    /// The host port that reaches `container_port`.
    pub host_port: u16,
    /// The bind mount `<host file>:<entry point>` that puts the function's
    /// binary in the container.
    pub binary_mount: String,
}

/// `plan` makes the container of `function_id` from `image`, published on
/// `host_port`, running the binary at `binary_path`.
pub open spec fn is_plan_for(
    plan: ContainerPlan,
    image: Seq<char>,
    function_id: Seq<char>,
    host_port: u16,
    binary_path: Seq<char>,
) -> bool {
    &&& plan.image@ == image
    &&& plan.name@ == container_name(function_id)
    &&& plan.labels@.len() == 2
    &&& plan.labels@[0].0@ == version_label().0
    &&& plan.labels@[0].1@ == version_label().1
    &&& plan.labels@[1].0@ == function_label()
    &&& plan.labels@[1].1@ == function_id
    &&& plan.command@.len() == 1
    &&& plan.command@[0]@ == entry_point()
    &&& plan.container_port == function_port()
    &&& plan.host_port == host_port
    &&& plan.binary_mount@ == binary_path + ":"@ + entry_point()
}

/// The labels hold the label `name` with the value `value`.
pub open spec fn carries_label(labels: Seq<(String, String)>, name: Seq<char>, value: Seq<char>) -> bool {
    exists|l: int| 0 <= l < labels.len() && (#[trigger] labels[l]).0@ == name && labels[l].1@ == value
}

/// The container planned for a function carries every label that the
/// listing of that function's containers selects on, with the same value,
/// so that listing finds it; in particular its second label is the second
/// filter's label, the function id in full.
pub proof fn lemma_plan_is_selected_by_function_filters(
    plan: ContainerPlan,
    image: Seq<char>,
    function_id: Seq<char>,
    host_port: u16,
    binary_path: Seq<char>,
    filters: Seq<ContainerFilterSpec>,
)
    requires
        is_plan_for(plan, image, function_id, host_port, binary_path),
        is_function_filters(filters, function_id),
    ensures
        forall|j: int|
            0 <= j < filters.len() ==> (#[trigger] filters[j] matches ContainerFilterSpec::Label(
                k,
                v,
            ) && carries_label(plan.labels@, k@, v@)),
        filters[1] matches ContainerFilterSpec::Label(k, v) && plan.labels@[1].0@ == k@
            && plan.labels@[1].1@ == v@,
{
    assert(carries_label(plan.labels@, version_label().0, version_label().1)) by {
        assert(plan.labels@[0].0@ == version_label().0);
    }
    assert(carries_label(plan.labels@, function_label(), function_id)) by {
        assert(plan.labels@[1].0@ == function_label());
    }
}

/// The plan of the container of `function_id`.
pub fn container_plan(image: &str, function_id: &str, host_port: u16, binary_path: &str) -> (r:
    ContainerPlan)
    ensures
        is_plan_for(r, image@, function_id@, host_port, binary_path@),
{
    let mut labels = Vec::new();
    labels.push((String::from_str("hello-faas-version"), String::from_str("v1")));
    labels.push((String::from_str("function-id"), String::from_str(function_id)));
    let mut command = Vec::new();
    command.push(String::from_str("/bootstrap"));
    ContainerPlan {
        image: String::from_str(image),
        name: String::from_str("hello-faas-").concat(function_id),
        labels,
        command,
        container_port: 8080,
        host_port,
        binary_mount: String::from_str(binary_path).concat(":").concat("/bootstrap"),
    }
}

} // verus!
