//! The decisions of a client session: a world upload first, then camera
//! positions, each answered with a frame.

use crate::world::{
    block_of,
    upload_char,
    upload_empty,
    upload_known,
    upload_rectangular,
    World,
};
use vstd::prelude::*;

verus! {

/// Where a session stands.
pub enum SessionState {
    /// No world has been uploaded yet.
    AwaitingWorld,
    /// The session's world, fixed for its lifetime.
    Ready(World),
}

/// What arrived from the client.
pub enum SessionEvent {
    /// A world upload, as rows of characters by height, then depth.
    Upload(Vec<Vec<String>>),
    /// A camera position.
    Camera,
    /// A message that could not be read.
    Malformed,
    /// The connection ended or failed.
    Closed,
}

/// What the session does next.
#[derive(Clone, Copy, Debug, PartialEq, Eq, Structural)]
pub enum SessionAction {
    /// Render a frame of the session's world and send it.
    Render,
    /// Wait for the next message.
    Skip,
    /// End the session.
    End,
}

/// An upload that builds a world: not empty, rectangular, and naming a
/// block with every character.
pub open spec fn upload_valid(v: Seq<Seq<Seq<char>>>) -> bool {
    !upload_empty(v) && upload_rectangular(v) && upload_known(v)
}

/// `w` is the world that upload `v` describes.
pub open spec fn built_from(w: World, v: Seq<Seq<Seq<char>>>) -> bool {
    &&& w.wf()
    &&& w.width == v[0][0].len()
    &&& w.height == v.len()
    &&& w.depth == v[0].len()
    &&& forall|x: int, y: int, z: int|
        w.in_bounds(x, y, z) ==> Some(#[trigger] w.block(x, y, z)) == block_of(
            upload_char(v, x, y, z),
        )
}

/// One step of a session. Before a world is uploaded, only a valid upload
/// keeps the session going; anything else ends it. Once a world is held,
/// each camera position asks for a frame, other messages are passed over,
/// and the world does not change. A closed connection ends the session.
pub fn session_step(s: SessionState, e: SessionEvent) -> (r: (SessionState, SessionAction))
    ensures
        e is Closed ==> r.1 == SessionAction::End,
        s is AwaitingWorld && !(e is Upload) ==> r.1 == SessionAction::End && r.0 is AwaitingWorld,
        s is AwaitingWorld && e is Upload && upload_valid(e->Upload_0.deep_view()) ==> (r.1
            == SessionAction::Skip && r.0 is Ready && built_from(r.0->Ready_0, e->Upload_0.deep_view())),
        s is AwaitingWorld && e is Upload && !upload_valid(e->Upload_0.deep_view()) ==> (r.1
            == SessionAction::End && r.0 is AwaitingWorld),
        s is Ready && e is Camera ==> r.1 == SessionAction::Render && r.0 == s,
        s is Ready && (e is Malformed || e is Upload) ==> r.1 == SessionAction::Skip && r.0 == s,
        s is Ready && e is Closed ==> r.0 == s,
{
    match s {
        SessionState::AwaitingWorld => match e {
            SessionEvent::Upload(rows) => match World::from_rows(&rows) {
                Ok(w) => (SessionState::Ready(w), SessionAction::Skip),
                Err(_) => (SessionState::AwaitingWorld, SessionAction::End),
            },
            _ => (SessionState::AwaitingWorld, SessionAction::End),
        },
        SessionState::Ready(w) => match e {
            SessionEvent::Camera => (SessionState::Ready(w), SessionAction::Render),
            SessionEvent::Closed => (SessionState::Ready(w), SessionAction::End),
            _ => (SessionState::Ready(w), SessionAction::Skip),
        },
    }
}

} // verus!
