use vstd::prelude::*;

verus! {

/// A page-originated call forwarded by the renderer: a caller-assigned
/// correlation id and its payload.
pub struct Callback<T> {
    pub id: u64,
    pub data: T,
}

/// The credentials a login page submits.
pub struct Login {
    pub username: String,
    pub password: String,
}

/// One entry of the session chooser shown by the renderer: a display name,
/// the lookup key the page hands back when the session is chosen, and a
/// comment.
pub struct Session {
    pub name: String,
    pub key: u64,
    pub comment: String,
}

/// Why a channel operation yielded no message: nothing is queued right now
/// (not a failure), or the peer is gone for good.
pub enum ChannelError {
    WouldBlock,
    Broken,
}

} // verus!
