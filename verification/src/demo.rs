//! The answers of the demonstration function.
use vstd::prelude::*;
use crate::containers::function_port;

verus! {

/// The routes of the demonstration function.
pub enum DemoRoute {
    /// `GET /`
    Root,
    /// `GET /foo`
    GetFoo,
    /// `POST /foo`
    PostFoo,
    /// `POST /foo/:name`, with the name from the path.
    PostFooName(String),
}

/// The `message` of the answer to a route.
pub open spec fn demo_message(route: DemoRoute) -> Seq<char> {
    match route {
        DemoRoute::Root => "I am GET /"@,
        DemoRoute::GetFoo => "I am GET /foo"@,
        DemoRoute::PostFoo => "I am POST /foo"@,
        DemoRoute::PostFooName(name) => "I am POST /foo/:name, name="@ + name@,
    }
}

impl DemoRoute {
    /// The `message` of the answer to this route.
    pub fn message(&self) -> (r: String)
        ensures
            r@ == demo_message(*self),
    {
        match self {
            DemoRoute::Root => String::from_str("I am GET /"),
            DemoRoute::GetFoo => String::from_str("I am GET /foo"),
            DemoRoute::PostFoo => String::from_str("I am POST /foo"),
            DemoRoute::PostFooName(name) => String::from_str("I am POST /foo/:name, name=").concat(
                name.as_str(),
            ),
        }
    }
}

/// The port on which a function serves (on all interfaces).
pub fn function_listen_port() -> (r: u16)
    ensures
        r == function_port(),
{
    8080
}

} // verus!
