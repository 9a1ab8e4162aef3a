//! The live state of a connected client.
use crate::table::Contents;
use crate::text::{opt_text, opt_text_clone};
use dashmap::DashMap;
use vstd::prelude::*;

verus! {

/// A connected client.
#[derive(Debug)]
pub struct SessionInfo {
    /// The address that the client connected from.
    pub client_addr: String,
    /// What identifies the token in use; empty when authentication is off.
    pub auth_token_id: String,
    /// The id of the token in the database, if it came from there.
    pub db_token_id: Option<String>,
    /// The user that the token belongs to, if it has one.
    pub user_id: Option<u128>,
    /// Every tunnel that the session has registered, in order.
    pub tunnels: Vec<u128>,
    /// Nanoseconds on the router's monotonic clock.
    pub connected_at: u64,
    /// When the session last had a ping from its client, or an answer to one, on the same
    /// clock; at first, when it connected.
    pub last_heartbeat: u64,
    /// Whether a data pipe is waiting to be taken.
    pub data_pipe: bool,
}

/// The view of a [`SessionInfo`].
#[verifier::ext_equal]
pub struct SessionModel {
    pub client_addr: Seq<char>,
    pub auth_token_id: Seq<char>,
    pub db_token_id: Option<Seq<char>>,
    pub user_id: Option<u128>,
    pub tunnels: Seq<u128>,
    pub connected_at: u64,
    pub last_heartbeat: u64,
    pub data_pipe: bool,
}

impl View for SessionInfo {
    type V = SessionModel;

    open spec fn view(&self) -> SessionModel {
        SessionModel {
            client_addr: self.client_addr@,
            auth_token_id: self.auth_token_id@,
            db_token_id: opt_text(self.db_token_id),
            user_id: self.user_id,
            tunnels: self.tunnels@,
            connected_at: self.connected_at,
            last_heartbeat: self.last_heartbeat,
            data_pipe: self.data_pipe,
        }
    }
}

/// A session that starts at `now`, without tunnels and without a pipe.
pub open spec fn new_session(
    client_addr: Seq<char>,
    auth_token_id: Seq<char>,
    db_token_id: Option<Seq<char>>,
    user_id: Option<u128>,
    now: u64,
) -> SessionModel {
    SessionModel {
        client_addr,
        auth_token_id,
        db_token_id,
        user_id,
        tunnels: Seq::empty(),
        connected_at: now,
        last_heartbeat: now,
        data_pipe: false,
    }
}

impl SessionInfo {
    /// A session that starts at `now`, without tunnels and without a pipe.
    pub fn new(
        client_addr: String,
        auth_token_id: String,
        db_token_id: Option<String>,
        user_id: Option<u128>,
        now: u64,
    ) -> (r: Self)
        ensures
            r@ == new_session(client_addr@, auth_token_id@, opt_text(db_token_id), user_id, now),
    {
        SessionInfo {
            client_addr,
            auth_token_id,
            db_token_id,
            user_id,
            tunnels: Vec::new(),
            connected_at: now,
            last_heartbeat: now,
            data_pipe: false,
        }
    }

    /// A copy.
    pub fn snapshot(&self) -> (r: Self)
        ensures
            r@ == self@,
    {
        let r = SessionInfo {
            client_addr: self.client_addr.clone(),
            auth_token_id: self.auth_token_id.clone(),
            db_token_id: opt_text_clone(&self.db_token_id),
            user_id: self.user_id,
            tunnels: self.tunnels.clone(),
            connected_at: self.connected_at,
            last_heartbeat: self.last_heartbeat,
            data_pipe: self.data_pipe,
        };
        assert(r@ =~= self@);
        r
    }
}

/// What a table of sessions holds: each session under its id.
pub uninterp spec fn session_table(m: DashMap<u128, SessionInfo>) -> Map<u128, SessionModel>;

impl Contents<u128, SessionModel> for DashMap<u128, SessionInfo> {
    open spec fn contents(&self) -> Map<u128, SessionModel> {
        session_table(*self)
    }
}

/// `DashMap::new`: a table without sessions.
#[verifier::external_body]
pub(crate) fn new_session_table() -> (r: DashMap<u128, SessionInfo>)
    ensures
        session_table(r) =~= Map::empty(),
{
    DashMap::new()
}

} // verus!
