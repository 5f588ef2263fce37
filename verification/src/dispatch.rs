//! The table from a method path to the call it names.

use vstd::prelude::*;
use crate::chat::{ChatRoom, RoomView, SessionId};
use crate::route::{RouteAggregator, RouteModel};
use crate::text::same_text;

verus! {

/// Path of the call that asks for the feature at one point.
pub const GET_FEATURE: &'static str = "/route_guide.RouteGuide/GetFeature";

/// Path of the call that lists the features inside a rectangle.
pub const LIST_FEATURES: &'static str = "/route_guide.RouteGuide/ListFeatures";

/// Path of the call that records a route point by point.
pub const RECORD_ROUTE: &'static str = "/route_guide.RouteGuide/RecordRoute";

/// Path of the call that exchanges notes with the other open sessions.
pub const ROUTE_CHAT: &'static str = "/route_guide.RouteGuide/RouteChat";

/// The four calls of the service.
#[derive(Clone, Copy, Debug, PartialEq, Eq, Structural)]
pub enum Method {
    GetFeature,
    ListFeatures,
    RecordRoute,
    RouteChat,
}

/// How many messages a call takes and how many it gives back.
#[derive(Clone, Copy, Debug, PartialEq, Eq, Structural)]
pub enum Shape {
    /// One request, one response.
    Unary,
    /// One request, a sequence of responses.
    ServerStreaming,
    /// A sequence of requests, one response at its end.
    ClientStreaming,
    /// A sequence of requests and a sequence of responses, independent of
    /// each other.
    Bidirectional,
}

impl Method {
    /// The path that names this call.
    pub open spec fn path_text(self) -> Seq<char> {
        match self {
            Method::GetFeature => GET_FEATURE@,
            Method::ListFeatures => LIST_FEATURES@,
            Method::RecordRoute => RECORD_ROUTE@,
            Method::RouteChat => ROUTE_CHAT@,
        }
    }

    /// The shape of this call.
    pub open spec fn shape_of(self) -> Shape {
        match self {
            Method::GetFeature => Shape::Unary,
            Method::ListFeatures => Shape::ServerStreaming,
            Method::RecordRoute => Shape::ClientStreaming,
            Method::RouteChat => Shape::Bidirectional,
        }
    }

    /// The path that names this call.
    pub fn path(&self) -> (text: &'static str)
        ensures
            text@ == self.path_text(),
    {
        match self {
            Method::GetFeature => GET_FEATURE,
            Method::ListFeatures => LIST_FEATURES,
            Method::RecordRoute => RECORD_ROUTE,
            Method::RouteChat => ROUTE_CHAT,
        }
    }

    /// The shape of this call.
    pub fn shape(&self) -> (shape: Shape)
        ensures
            shape == self.shape_of(),
    {
        match self {
            Method::GetFeature => Shape::Unary,
            Method::ListFeatures => Shape::ServerStreaming,
            Method::RecordRoute => Shape::ClientStreaming,
            Method::RouteChat => Shape::Bidirectional,
        }
    }
}

/// The call that a path names, if it names one.
pub open spec fn resolved(path: Seq<char>) -> Option<Method> {
    if path == GET_FEATURE@ {
        Some(Method::GetFeature)
    } else if path == LIST_FEATURES@ {
        Some(Method::ListFeatures)
    } else if path == RECORD_ROUTE@ {
        Some(Method::RecordRoute)
    } else if path == ROUTE_CHAT@ {
        Some(Method::RouteChat)
    } else {
        None
    }
}

/// Finds the call that a path names. A path that is none of the four names
/// no call.
pub fn resolve(path: &str) -> (method: Option<Method>)
    ensures
        method == resolved(path@),
{
    if same_text(path, GET_FEATURE) {
        Some(Method::GetFeature)
    } else if same_text(path, LIST_FEATURES) {
        Some(Method::ListFeatures)
    } else if same_text(path, RECORD_ROUTE) {
        Some(Method::RecordRoute)
    } else if same_text(path, ROUTE_CHAT) {
        Some(Method::RouteChat)
    } else {
        None
    }
}

/// Every call is found again under its own path, so the four paths name four
/// different calls.
pub proof fn lemma_resolve_finds_each_method(method: Method)
    ensures
        resolved(method.path_text()) == Some(method),
{
    reveal_strlit("/route_guide.RouteGuide/GetFeature");
    reveal_strlit("/route_guide.RouteGuide/ListFeatures");
    reveal_strlit("/route_guide.RouteGuide/RecordRoute");
    reveal_strlit("/route_guide.RouteGuide/RouteChat");
    assert(GET_FEATURE@.len() == 34);
    assert(LIST_FEATURES@.len() == 36);
    assert(RECORD_ROUTE@.len() == 35);
    assert(ROUTE_CHAT@.len() == 33);
}

/// The handler that serves one call. It is bound to the call when the call
/// is dispatched and belongs to it alone until the call ends.
#[derive(Debug)]
pub enum Call {
    /// The feature at one point is asked for. The catalog answers; it never
    /// changes and serves every call.
    GetFeature,
    /// The features inside a rectangle are asked for. The catalog answers.
    ListFeatures,
    /// A route is recorded by the accumulator made for this call.
    RecordRoute(RouteAggregator),
    /// Notes are exchanged through the chat session opened for this call.
    RouteChat(SessionId),
}

impl Call {
    /// The call that this handler serves.
    pub open spec fn method_of(self) -> Method {
        match self {
            Call::GetFeature => Method::GetFeature,
            Call::ListFeatures => Method::ListFeatures,
            Call::RecordRoute(_) => Method::RecordRoute,
            Call::RouteChat(_) => Method::RouteChat,
        }
    }

    /// The call that this handler serves.
    pub fn method(&self) -> (method: Method)
        ensures
            method == self.method_of(),
    {
        match self {
            Call::GetFeature => Method::GetFeature,
            Call::ListFeatures => Method::ListFeatures,
            Call::RecordRoute(_) => Method::RecordRoute,
            Call::RouteChat(_) => Method::RouteChat,
        }
    }
}

/// Why a call was not given a handler. Either way the caller gets a plain
/// answer and the connection goes on.
#[derive(Clone, Copy, Debug, PartialEq, Eq, Structural)]
pub enum Rejection {
    /// The path names none of the calls of the service.
    Unimplemented,
    /// The chat hub has handed out every session handle it has.
    Exhausted,
}

/// The status of an exchange that itself went well.
pub const REPLY_STATUS: u16 = 200;

/// The header that carries the status code of a call.
pub const STATUS_HEADER: &'static str = "grpc-status";

/// The answer that tells a caller that its call was turned down: the status
/// of the exchange, and the header with the status code of the call. It has
/// no body.
#[derive(Clone, Copy, Debug, PartialEq, Eq)]
pub struct Reply {
    pub status: u16,
    pub header: &'static str,
    pub code: u32,
}

impl Rejection {
    /// The status code that tells the caller of the rejection.
    pub open spec fn code_of(self) -> u32 {
        match self {
            Rejection::Unimplemented => 12,
            Rejection::Exhausted => 8,
        }
    }

    /// The status code that tells the caller of the rejection.
    pub fn code(&self) -> (code: u32)
        ensures
            code == self.code_of(),
    {
        match self {
            Rejection::Unimplemented => 12,
            Rejection::Exhausted => 8,
        }
    }

    /// The answer that tells the caller of the rejection: the exchange went
    /// well, and the status code of the call says why it was turned down.
    pub fn reply(&self) -> (reply: Reply)
        ensures
            reply.status == REPLY_STATUS,
            reply.header@ == STATUS_HEADER@,
            reply.code == self.code_of(),
    {
        Reply { status: REPLY_STATUS, header: STATUS_HEADER, code: self.code() }
    }
}

/// The handler was made for this call: a handler of the catalog, an
/// accumulator that has taken no point yet and starts at second `now`, or
/// the chat session that joined last.
pub open spec fn bound_afresh(call: Call, method: Method, before: RoomView, now: int) -> bool {
    match method {
        Method::GetFeature => call is GetFeature,
        Method::ListFeatures => call is ListFeatures,
        Method::RecordRoute => call matches Call::RecordRoute(route) && route@ == RouteModel::fresh(
            now,
        ),
        Method::RouteChat => call matches Call::RouteChat(id) && before.next_id() == Some(id),
    }
}

/// Why a call gets no handler, if it gets none: a chat needs a session
/// handle, and the hub may have none left.
pub open spec fn bind_refusal(method: Method, before: RoomView) -> Option<Rejection> {
    if method == Method::RouteChat && before.next_id() is None {
        Some(Rejection::Exhausted)
    } else {
        None
    }
}

/// The hub after a call got its handler: a chat has joined it, and any
/// other call has left it as it was.
pub open spec fn room_after_bind(method: Method, before: RoomView) -> RoomView {
    if method == Method::RouteChat {
        before.joined()
    } else {
        before
    }
}

/// Gives a call its handler, made for this call alone: the two calls that
/// read the catalog need no state; a recorded route gets a fresh
/// accumulator that starts at second `now`; a chat gets a session that joins
/// the hub now.
pub fn bind(method: Method, room: &mut ChatRoom, now: u64) -> (bound: Result<Call, Rejection>)
    ensures
        match bound {
            Ok(call) => bind_refusal(method, old(room)@) is None && bound_afresh(
                call,
                method,
                old(room)@,
                now as int,
            ),
            Err(rejection) => bind_refusal(method, old(room)@) == Some(rejection),
        },
        final(room)@ == room_after_bind(method, old(room)@),
        old(room)@.wf() ==> final(room)@.wf(),
{
    match method {
        Method::GetFeature => Ok(Call::GetFeature),
        Method::ListFeatures => Ok(Call::ListFeatures),
        Method::RecordRoute => Ok(Call::RecordRoute(RouteAggregator::new(now))),
        Method::RouteChat => match room.join() {
            Some(id) => Ok(Call::RouteChat(id)),
            None => Err(Rejection::Exhausted),
        },
    }
}

/// Gives the call under `path` its handler. A path that names one of the
/// four calls is bound as `bind` binds that call. A path that names no call
/// is answered as unimplemented, and the hub, with every session open in
/// it, stays as it was: the calls that are under way notice nothing.
pub fn dispatch(path: &str, room: &mut ChatRoom, now: u64) -> (bound: Result<Call, Rejection>)
    ensures
        match resolved(path@) {
            None => bound == Err::<Call, Rejection>(Rejection::Unimplemented) && final(room)@ == old(
                room,
            )@,
            Some(method) => {
                &&& match bound {
                    Ok(call) => bind_refusal(method, old(room)@) is None && bound_afresh(
                        call,
                        method,
                        old(room)@,
                        now as int,
                    ),
                    Err(rejection) => bind_refusal(method, old(room)@) == Some(rejection),
                }
                &&& final(room)@ == room_after_bind(method, old(room)@)
            },
        },
        old(room)@.wf() ==> final(room)@.wf(),
{
    match resolve(path) {
        None => Err(Rejection::Unimplemented),
        Some(method) => bind(method, room, now),
    }
}

/// Ends a call and lets go of its handler, however the call ended. The chat
/// session of the call leaves the hub; an accumulator is dropped with what
/// it held, and no summary comes of it.
pub fn release(call: Call, room: &mut ChatRoom)
    ensures
        old(room)@.wf() ==> final(room)@.wf(),
        final(room)@ == match call {
            Call::RouteChat(id) => old(room)@.left(id),
            _ => old(room)@,
        },
{
    match call {
        Call::RouteChat(id) => {
            room.leave(id);
        },
        _ => {},
    }
}

} // verus!
