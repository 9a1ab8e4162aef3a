//! The routing core at work: sessions, removal, health reports, alerts and dispatch.
use crate::clock::unix_nanos;
use crate::group::{
    group_events, healthy_ids, is_healthy_member, lists_alert_urls, GroupAlertPayload, GroupEvent,
    GroupEventModel, GroupModel, TunnelGroup, ZeroHealthyAlert,
};
use crate::ids::{is_random_uuid, new_uuid};
use crate::router::{choose_below, P2pPublisher, TunnelCore, TunnelKey};
use crate::router_model::{
    alert_due_for, alert_payload, alert_sent, bytes_added, can_serve, dispatched, group_at,
    is_last_member, is_published, is_served, key_label, key_protocol, marked_healthy, marked_unhealthy, member_key,
    nat_updated, p2p_dispatched, request_counted, route_of, session_heard, session_removed, tunnel_at, tunnel_removed,
    tunnels_removed, with_group, without_group, CoreModel, KeyModel,
};
use crate::session_info::{new_session, SessionInfo, SessionModel};
use crate::table::{table_contains, table_insert, table_remove, table_view};
use crate::text::{opt_text, take_chars, texts};
use crate::tunnel::{TcpTunnelEvent, TunnelInfo, UdpTunnelEvent};
use vstd::prelude::*;
use vstd::string::*;

verus! {

impl TunnelCore {
    // ── sessions ─────────────────────────────────────────────────────────────

    /// Notes a session under an id and with a clock reading that the caller supplies.
    pub fn register_session_with(
        &mut self,
        addr: String,
        token_id: String,
        db_token_id: Option<String>,
        user_id: Option<u128>,
        session_id: u128,
        now: u64,
    )
        ensures
            final(self)@ == (CoreModel {
                sessions: old(self)@.sessions.insert(
                    session_id,
                    new_session(addr@, token_id@, opt_text(db_token_id), user_id, now),
                ),
                ..old(self)@
            }),
    {
        table_insert(
            &mut self.sessions,
            session_id,
            SessionInfo::new(addr, token_id, db_token_id, user_id, now),
        );
    }

    /// Notes a new session. Returns its id.
    pub fn register_session(
        &mut self,
        addr: String,
        token_id: String,
        db_token_id: Option<String>,
        user_id: Option<u128>,
    ) -> (r: u128)
        ensures
            is_random_uuid(r),
            exists|now: u64|
                final(self)@ == (CoreModel {
                    sessions: old(self)@.sessions.insert(
                        r,
                        #[trigger] new_session(
                            addr@,
                            token_id@,
                            opt_text(db_token_id),
                            user_id,
                            now,
                        ),
                    ),
                    ..old(self)@
                }),
    {
        let session_id: u128 = new_uuid();
        let now: u64 = self.clock_nanos();
        self.register_session_with(addr, token_id, db_token_id, user_id, session_id, now);
        assert(self@.sessions[session_id] == new_session(
            addr@,
            token_id@,
            opt_text(db_token_id),
            user_id,
            now,
        ));
        session_id
    }

    /// Forgets a session and all its tunnels.
    pub fn remove_session(&mut self, session_id: &u128)
        ensures
            final(self)@ == session_removed(old(self)@, *session_id),
    {
        let ghost c = self@;
        let session: SessionInfo = match table_remove(&mut self.sessions, session_id) {
            Some(s) => s,
            None => {
                assert(self@ =~= c);
                return;
            },
        };
        let ghost c1 = CoreModel { sessions: c.sessions.remove(*session_id), ..c };
        assert(self@ =~= c1);
        let mut i: usize = 0;
        while i < session.tunnels.len()
            invariant
                i <= session.tunnels@.len(),
                self@ == tunnels_removed(c1, session.tunnels@.take(i as int)),
            decreases session.tunnels@.len() - i,
        {
            let id: u128 = session.tunnels[i];
            self.remove_tunnel(&id);
            assert(session.tunnels@.take(i + 1).drop_last() =~= session.tunnels@.take(i as int));
            i = i + 1;
        }
        assert(session.tunnels@.take(i as int) =~= session.tunnels@);
    }

    /// What is known of a session.
    pub fn session(&self, session_id: &u128) -> (r: Option<SessionInfo>)
        ensures
            r is Some <==> self@.sessions.contains_key(*session_id),
            r matches Some(s) ==> s@ == self@.sessions[*session_id],
    {
        table_view(
            &self.sessions,
            session_id,
            |s: &SessionInfo| -> (x: SessionInfo) ensures x@ == s@ { s.snapshot() },
        )
    }

    /// Notes that a data pipe waits for the session's data connection. Returns whether the
    /// session exists.
    pub fn set_data_pipe(&mut self, session_id: &u128) -> (r: bool)
        ensures
            r == old(self)@.sessions.contains_key(*session_id),
            final(self)@ == if r {
                CoreModel {
                    sessions: old(self)@.sessions.insert(
                        *session_id,
                        SessionModel { data_pipe: true, ..old(self)@.sessions[*session_id] },
                    ),
                    ..old(self)@
                }
            } else {
                old(self)@
            },
    {
        match table_remove(&mut self.sessions, session_id) {
            Some(session) => {
                let mut s: SessionInfo = session;
                s.data_pipe = true;
                table_insert(&mut self.sessions, *session_id, s);
                assert(self@.sessions =~= old(self)@.sessions.insert(
                    *session_id,
                    SessionModel { data_pipe: true, ..old(self)@.sessions[*session_id] },
                ));
                true
            },
            None => {
                assert(self@ =~= old(self)@);
                false
            },
        }
    }

    /// Notes that a session was heard of at `now`. Returns whether the session exists.
    pub fn note_heartbeat(&mut self, session_id: &u128, now: u64) -> (r: bool)
        ensures
            r == old(self)@.sessions.contains_key(*session_id),
            final(self)@ == session_heard(old(self)@, *session_id, now),
    {
        match table_remove(&mut self.sessions, session_id) {
            Some(session) => {
                let mut s: SessionInfo = session;
                s.last_heartbeat = now;
                table_insert(&mut self.sessions, *session_id, s);
                assert(self@.sessions =~= session_heard(old(self)@, *session_id, now).sessions);
                true
            },
            None => {
                assert(self@ =~= old(self)@);
                false
            },
        }
    }

    /// Hands the session's data pipe over. Returns whether one was waiting.
    pub fn take_data_pipe(&mut self, session_id: &u128) -> (r: bool)
        ensures
            r == (old(self)@.sessions.contains_key(*session_id)
                && old(self)@.sessions[*session_id].data_pipe),
            final(self)@ == if r {
                CoreModel {
                    sessions: old(self)@.sessions.insert(
                        *session_id,
                        SessionModel { data_pipe: false, ..old(self)@.sessions[*session_id] },
                    ),
                    ..old(self)@
                }
            } else {
                old(self)@
            },
    {
        match table_remove(&mut self.sessions, session_id) {
            Some(session) => {
                let mut s: SessionInfo = session;
                let waiting: bool = s.data_pipe;
                s.data_pipe = false;
                table_insert(&mut self.sessions, *session_id, s);
                assert(self@.sessions =~= old(self)@.sessions.insert(
                    *session_id,
                    SessionModel { data_pipe: false, ..old(self)@.sessions[*session_id] },
                ));
                if !waiting {
                    assert(self@ =~= old(self)@);
                }
                waiting
            },
            None => {
                assert(self@ =~= old(self)@);
                false
            },
        }
    }

    // ── connections that wait for a data stream ──────────────────────────────

    /// Notes a connection that waits for its data stream.
    pub fn register_pending_conn(&mut self, conn_id: u128)
        ensures
            final(self)@ == (CoreModel {
                pending: old(self)@.pending.insert(conn_id),
                ..old(self)@
            }),
    {
        table_insert(&mut self.pending_conns, conn_id, ());
        assert(self@.pending =~= old(self)@.pending.insert(conn_id));
    }

    /// Settles a waiting connection when its data stream has come. Returns whether it waited.
    pub fn resolve_pending_conn(&mut self, conn_id: &u128) -> (r: bool)
        ensures
            r == old(self)@.pending.contains(*conn_id),
            final(self)@ == (CoreModel {
                pending: old(self)@.pending.remove(*conn_id),
                ..old(self)@
            }),
    {
        let r: Option<()> = table_remove(&mut self.pending_conns, conn_id);
        assert(self@.pending =~= old(self)@.pending.remove(*conn_id));
        r.is_some()
    }

    /// Gives a waiting connection up.
    pub fn cancel_pending_conn(&mut self, conn_id: &u128)
        ensures
            final(self)@ == (CoreModel {
                pending: old(self)@.pending.remove(*conn_id),
                ..old(self)@
            }),
    {
        let _gone = table_remove(&mut self.pending_conns, conn_id);
        assert(self@.pending =~= old(self)@.pending.remove(*conn_id));
    }

    // ── removing tunnels ─────────────────────────────────────────────────────

    /// Takes a tunnel out. The last member of a group takes the route with it: its port goes
    /// back to the free ones, and the edge is told.
    pub fn remove_tunnel(&mut self, tunnel_id: &u128)
        ensures
            final(self)@ == tunnel_removed(old(self)@, *tunnel_id),
    {
        let ghost c = self@;
        let ghost id = *tunnel_id;
        let key: TunnelKey = match table_remove(&mut self.tunnel_index, tunnel_id) {
            Some(k) => k,
            None => {
                assert(self@ =~= c);
                return;
            },
        };
        let ghost c1 = CoreModel { index: c.index.remove(id), ..c };
        assert(self@ =~= c1);
        let mut pool: Option<(String, String)> = None;
        match self.take_group(&key) {
            Some(found) => {
                let mut g: TunnelGroup = found;
                let empty: bool = g.leave(tunnel_id);
                if !empty {
                    self.put_group(&key, g);
                    assert(self@ =~= tunnel_removed(c, id));
                    return;
                }
                match g.key_hash {
                    Some(k) => {
                        pool = Some((g.name, k));
                    },
                    None => {},
                }
            },
            None => {},
        }
        let ghost c2 = without_group(c1, key@);
        assert(self@ == c2);
        assert(is_last_member(c, key@, id));
        match key {
            TunnelKey::Http(_) => {},
            TunnelKey::Tcp(port) => {
                match pool {
                    Some(k) => {
                        let _gone = table_remove(&mut self.tcp_group_index, &k);
                    },
                    None => {},
                }
                self.available_tcp_ports.push(port);
                self.tcp_events.push(TcpTunnelEvent::Unregistered { port });
            },
            TunnelKey::Udp(port) => {
                self.available_udp_ports.push(port);
                self.udp_events.push(UdpTunnelEvent::Unregistered { port });
            },
            TunnelKey::P2p(name) => {
                let _gone = table_remove(&mut self.p2p_tunnels, &name);
            },
        }
        assert(self@ =~= tunnel_removed(c, id));
    }

    // ── looking tunnels up ───────────────────────────────────────────────────

    /// The route that the index gives for a tunnel.
    pub fn tunnel_key(&self, tunnel_id: &u128) -> (r: Option<TunnelKey>)
        ensures
            r is Some <==> self@.index.contains_key(*tunnel_id),
            r matches Some(k) ==> k@ == self@.index[*tunnel_id],
    {
        table_view(
            &self.tunnel_index,
            tunnel_id,
            |k: &TunnelKey| -> (x: TunnelKey) ensures x@ == k@ { k.clone() },
        )
    }

    /// What a tunnel is registered as.
    pub fn tunnel_info(&self, tunnel_id: &u128) -> (r: Option<TunnelInfo>)
        ensures
            r is Some <==> tunnel_at(self@, *tunnel_id) is Some,
            r matches Some(info) ==> Some(info@) == tunnel_at(self@, *tunnel_id),
    {
        let key: TunnelKey = match self.tunnel_key(tunnel_id) {
            Some(k) => k,
            None => {
                return None;
            },
        };
        let found: Option<Option<TunnelInfo>> = match &key {
            TunnelKey::Http(s) => table_view(
                &self.http_routes,
                s,
                |g: &TunnelGroup| -> (x: Option<TunnelInfo>) ensures member_of(g@, *tunnel_id, x) { g.member_info(tunnel_id) },
            ),
            TunnelKey::Tcp(p) => table_view(
                &self.tcp_routes,
                p,
                |g: &TunnelGroup| -> (x: Option<TunnelInfo>) ensures member_of(g@, *tunnel_id, x) { g.member_info(tunnel_id) },
            ),
            TunnelKey::Udp(p) => table_view(
                &self.udp_routes,
                p,
                |g: &TunnelGroup| -> (x: Option<TunnelInfo>) ensures member_of(g@, *tunnel_id, x) { g.member_info(tunnel_id) },
            ),
            TunnelKey::P2p(name) => table_view(
                &self.p2p_tunnels,
                name,
                |p: &P2pPublisher| -> (x: Option<TunnelInfo>) ensures x is Some && (x->0)@ == p@.tunnel_info { Some(p.tunnel_info.clone()) },
            ),
        };
        match found {
            Some(info) => info,
            None => None,
        }
    }

    /// How many requests a tunnel has served; 0 for an unknown one.
    pub fn get_tunnel_request_count(&self, tunnel_id: &u128) -> (r: u64)
        ensures
            r == match tunnel_at(self@, *tunnel_id) {
                Some(info) => info.request_count,
                None => 0,
            },
    {
        match self.tunnel_info(tunnel_id) {
            Some(info) => info.request_count,
            None => 0,
        }
    }

    /// How many bytes a tunnel has carried; 0 for an unknown one.
    pub fn get_tunnel_bytes_proxied(&self, tunnel_id: &u128) -> (r: u64)
        ensures
            r == match tunnel_at(self@, *tunnel_id) {
                Some(info) => info.bytes_proxied,
                None => 0,
            },
    {
        match self.tunnel_info(tunnel_id) {
            Some(info) => info.bytes_proxied,
            None => 0,
        }
    }

    /// The session that owns a tunnel.
    pub fn tunnel_session(&self, tunnel_id: &u128) -> (r: Option<u128>)
        ensures
            r == match tunnel_at(self@, *tunnel_id) {
                Some(info) => Some(info.session_id),
                None => None,
            },
    {
        match self.tunnel_info(tunnel_id) {
            Some(info) => Some(info.session_id),
            None => None,
        }
    }

    /// The route of the group that a tunnel belongs to. `None` for unknown tunnels, and for
    /// peer-to-peer ones, which belong to no group.
    pub fn group_for_tunnel(&self, tunnel_id: &u128) -> (r: Option<TunnelKey>)
        ensures
            r is Some <==> route_of(self@, *tunnel_id) is Some,
            r matches Some(k) ==> Some(k@) == route_of(self@, *tunnel_id),
    {
        let key: TunnelKey = match self.tunnel_key(tunnel_id) {
            Some(k) => k,
            None => {
                return None;
            },
        };
        let present: bool = match &key {
            TunnelKey::Http(s) => table_contains(&self.http_routes, s),
            TunnelKey::Tcp(p) => table_contains(&self.tcp_routes, p),
            TunnelKey::Udp(p) => table_contains(&self.udp_routes, p),
            TunnelKey::P2p(_) => false,
        };
        if present {
            Some(key)
        } else {
            None
        }
    }

    // ── health ───────────────────────────────────────────────────────────────

    /// Puts the news of a flipped member in front of the subscribers.
    fn broadcast_group_event(
        &mut self,
        tunnel_id: &u128,
        key: &TunnelKey,
        healthy: bool,
        reason: &str,
        healthy_count: usize,
        member_count: usize,
    )
        ensures
            final(self)@ == (CoreModel {
                group_events: old(self)@.group_events.push(
                    GroupEventModel {
                        protocol: key_protocol(key@),
                        label: key_label(key@),
                        tunnel_id: *tunnel_id,
                        healthy,
                        reason: reason@,
                        healthy_count: healthy_count as nat,
                        member_count: member_count as nat,
                    },
                ),
                ..old(self)@
            }),
    {
        let event = GroupEvent {
            protocol: key.protocol(),
            label: key.label(),
            tunnel_id: *tunnel_id,
            healthy,
            reason: reason.to_owned(),
            healthy_count,
            member_count,
        };
        self.group_events.push(event);
        assert(self@.group_events =~= old(self)@.group_events.push(event@));
    }

    /// A good report on a tunnel, at a time that the caller supplies. Returns whether the
    /// tunnel is a member of a group.
    pub fn set_tunnel_healthy_at(&mut self, tunnel_id: &u128, at: u64) -> (r: bool)
        ensures
            r == (member_key(old(self)@, *tunnel_id) is Some),
            final(self)@ == marked_healthy(old(self)@, *tunnel_id, at),
    {
        let ghost c = self@;
        let ghost id = *tunnel_id;
        let key: TunnelKey = match self.tunnel_key(tunnel_id) {
            Some(k) => k,
            None => {
                return false;
            },
        };
        let mut g: TunnelGroup = match self.take_group(&key) {
            Some(g) => g,
            None => {
                assert(self@ =~= c);
                return false;
            },
        };
        match g.report_healthy(tunnel_id, at) {
            None => {
                self.put_group(&key, g);
                assert(self@ =~= c);
                false
            },
            Some(flipped) => {
                let healthy_count: usize = g.healthy_count();
                let member_count: usize = g.member_count();
                let ghost g2 = g@;
                self.put_group(&key, g);
                assert(self@ =~= with_group(c, key@, g2));
                if flipped {
                    self.broadcast_group_event(
                        tunnel_id,
                        &key,
                        true,
                        "recovered",
                        healthy_count,
                        member_count,
                    );
                }
                assert(self@ =~= marked_healthy(c, id, at));
                true
            },
        }
    }

    /// A good report on a tunnel: it is dispatched to again, and its group may raise the
    /// alert again. Returns whether the tunnel is a member of a group.
    pub fn set_tunnel_healthy(&mut self, tunnel_id: &u128) -> (r: bool)
        ensures
            r == (member_key(old(self)@, *tunnel_id) is Some),
            exists|at: u64| final(self)@ == #[trigger] marked_healthy(old(self)@, *tunnel_id, at),
    {
        let at: u64 = unix_nanos();
        self.set_tunnel_healthy_at(tunnel_id, at)
    }

    /// A bad report on a tunnel, at a time that the caller supplies. Returns whether the
    /// tunnel is a member of a group.
    pub fn set_tunnel_unhealthy_at(&mut self, tunnel_id: &u128, reason: &str, at: u64) -> (r: bool)
        ensures
            r == (member_key(old(self)@, *tunnel_id) is Some),
            final(self)@ == marked_unhealthy(old(self)@, *tunnel_id, reason@, at),
    {
        let ghost c = self@;
        let ghost id = *tunnel_id;
        let key: TunnelKey = match self.tunnel_key(tunnel_id) {
            Some(k) => k,
            None => {
                return false;
            },
        };
        let mut g: TunnelGroup = match self.take_group(&key) {
            Some(g) => g,
            None => {
                assert(self@ =~= c);
                return false;
            },
        };
        match g.report_unhealthy(tunnel_id, reason, at) {
            None => {
                self.put_group(&key, g);
                assert(self@ =~= c);
                false
            },
            Some(flipped) => {
                let healthy_count: usize = g.healthy_count();
                let member_count: usize = g.member_count();
                let ghost g2 = g@;
                self.put_group(&key, g);
                assert(self@ =~= with_group(c, key@, g2));
                if flipped {
                    self.broadcast_group_event(
                        tunnel_id,
                        &key,
                        false,
                        reason,
                        healthy_count,
                        member_count,
                    );
                }
                assert(self@ =~= marked_unhealthy(c, id, reason@, at));
                true
            },
        }
    }

    /// A bad report on a tunnel: it is not dispatched to until a good one. Returns whether
    /// the tunnel is a member of a group.
    pub fn set_tunnel_unhealthy(&mut self, tunnel_id: &u128, reason: &str) -> (r: bool)
        ensures
            r == (member_key(old(self)@, *tunnel_id) is Some),
            exists|at: u64|
                final(self)@ == #[trigger] marked_unhealthy(
                    old(self)@,
                    *tunnel_id,
                    reason@,
                    at,
                ),
    {
        let at: u64 = unix_nanos();
        self.set_tunnel_unhealthy_at(tunnel_id, reason, at)
    }

    /// The alert on a tunnel's pool, if it is due: the pool has no healthy member, and no
    /// alert has gone out since one was healthy. Once handed out it is not due again until a
    /// member recovers.
    pub fn pop_zero_healthy_alert(&mut self, tunnel_id: &u128, region_id: &str) -> (r: Option<
        ZeroHealthyAlert,
    >)
        ensures
            r is Some <==> alert_due_for(old(self)@, *tunnel_id),
            r is None ==> final(self)@ == old(self)@,
            r matches Some(alert) ==> {
                &&& final(self)@ == alert_sent(old(self)@, *tunnel_id)
                &&& alert.payload@ == alert_payload(old(self)@, *tunnel_id, region_id@)
                &&& lists_alert_urls(
                    texts(alert.tenant_webhook_urls@),
                    group_at(old(self)@, old(self)@.index[*tunnel_id])->0,
                )
            },
    {
        let ghost c = self@;
        let ghost id = *tunnel_id;
        let key: TunnelKey = match self.tunnel_key(tunnel_id) {
            Some(k) => k,
            None => {
                return None;
            },
        };
        let mut g: TunnelGroup = match self.take_group(&key) {
            Some(g) => g,
            None => {
                assert(self@ =~= c);
                return None;
            },
        };
        let ghost g0 = g@;
        let urls: Vec<String> = g.alert_urls();
        let member_count: usize = g.member_count();
        let due: bool = g.arm_alert();
        if !due {
            self.put_group(&key, g);
            assert(self@ =~= c);
            return None;
        }
        let key_hash_short: String = match &g.key_hash {
            Some(k) => take_chars(k.as_str(), 8),
            None => String::new(),
        };
        let payload = GroupAlertPayload {
            region_id: region_id.to_owned(),
            protocol: key.protocol(),
            label: key.label(),
            group_name: g.name.clone(),
            key_hash_short,
            member_count,
        };
        self.put_group(&key, g);
        assert(self@ =~= alert_sent(c, id));
        assert(payload@ =~= alert_payload(c, id, region_id@));
        Some(ZeroHealthyAlert { payload, tenant_webhook_urls: urls })
    }

    // ── dispatch ─────────────────────────────────────────────────────────────

    /// Sends a request for a route to the member `chosen`, if that one can serve it: it is
    /// healthy, and its session is still there. Returns what it is registered as, with this
    /// request counted.
    pub fn dispatch_to(&mut self, key: &TunnelKey, chosen: &u128) -> (r: Option<TunnelInfo>)
        ensures
            r is Some <==> can_serve(old(self)@, key@, *chosen),
            r is None ==> final(self)@ == old(self)@,
            r matches Some(info) ==> final(self)@ == dispatched(old(self)@, key@, *chosen)
                && info@ == (group_at(final(self)@, key@)->0).members[*chosen].info,
    {
        let ghost c = self@;
        let mut g: TunnelGroup = match self.take_group(key) {
            Some(g) => g,
            None => {
                assert(self@ =~= c);
                return None;
            },
        };
        let ghost g0 = g@;
        let owner: Option<u128> = g.healthy_member_session(chosen);
        let served: bool = match owner {
            Some(session_id) => table_contains(&self.sessions, &session_id),
            None => false,
        };
        let info: Option<TunnelInfo> = if served {
            g.count_request(chosen)
        } else {
            None
        };
        let ghost g1 = g@;
        self.put_group(key, g);
        assert(self@ =~= with_group(c, key@, g1));
        proof {
            if !served {
                assert(with_group(c, key@, g0) =~= c);
            }
        }
        info
    }

    /// The healthy members of a route's group, in no fixed order.
    pub fn healthy_members(&self, key: &TunnelKey) -> (r: Vec<u128>)
        ensures
            r@.no_duplicates(),
            forall|id: u128| #[trigger]
                r@.contains(id) <==> group_at(self@, key@) is Some && is_healthy_member(
                    group_at(self@, key@)->0,
                    id,
                ),
    {
        let found: Option<Vec<u128>> = match key {
            TunnelKey::Http(s) => table_view(
                &self.http_routes,
                s,
                |g: &TunnelGroup| -> (x: Vec<u128>) ensures lists_healthy(g@, x@) { g.healthy_members() },
            ),
            TunnelKey::Tcp(p) => table_view(
                &self.tcp_routes,
                p,
                |g: &TunnelGroup| -> (x: Vec<u128>) ensures lists_healthy(g@, x@) { g.healthy_members() },
            ),
            TunnelKey::Udp(p) => table_view(
                &self.udp_routes,
                p,
                |g: &TunnelGroup| -> (x: Vec<u128>) ensures lists_healthy(g@, x@) { g.healthy_members() },
            ),
            TunnelKey::P2p(_) => None,
        };
        match found {
            Some(ids) => {
                proof {
                    let g = group_at(self@, key@)->0;
                    assert forall|id: u128| #[trigger]
                        ids@.contains(id) <==> is_healthy_member(g, id) by {
                        assert(ids@.to_set().contains(id) <==> ids@.contains(id));
                    }
                }
                ids
            },
            None => Vec::new(),
        }
    }

    /// What the member `id` of a route's group is registered as, if that one is healthy.
    fn healthy_member(&self, key: &TunnelKey, id: &u128) -> (r: Option<TunnelInfo>)
        ensures
            r is Some <==> group_at(self@, key@) is Some && is_healthy_member(
                group_at(self@, key@)->0,
                *id,
            ),
            r matches Some(info) ==> info@ == (group_at(self@, key@)->0).members[*id].info,
    {
        let found: Option<Option<TunnelInfo>> = match key {
            TunnelKey::Http(s) => table_view(
                &self.http_routes,
                s,
                |g: &TunnelGroup| -> (x: Option<TunnelInfo>) ensures healthy_member_of(g@, *id, x) { g.healthy_member(id) },
            ),
            TunnelKey::Tcp(p) => table_view(
                &self.tcp_routes,
                p,
                |g: &TunnelGroup| -> (x: Option<TunnelInfo>) ensures healthy_member_of(g@, *id, x) { g.healthy_member(id) },
            ),
            TunnelKey::Udp(p) => table_view(
                &self.udp_routes,
                p,
                |g: &TunnelGroup| -> (x: Option<TunnelInfo>) ensures healthy_member_of(g@, *id, x) { g.healthy_member(id) },
            ),
            TunnelKey::P2p(_) => None,
        };
        match found {
            Some(info) => info,
            None => None,
        }
    }

    /// Whether a request for a route can go to some member. This counts nothing.
    pub fn is_served(&self, key: &TunnelKey) -> (r: bool)
        ensures
            r == is_served(self@, key@),
    {
        let ids: Vec<u128> = self.healthy_members(key);
        let mut i: usize = 0;
        while i < ids.len()
            invariant
                i <= ids@.len(),
                forall|id: u128| #[trigger]
                    ids@.contains(id) <==> group_at(self@, key@) is Some && is_healthy_member(
                        group_at(self@, key@)->0,
                        id,
                    ),
                forall|j: int| 0 <= j < i ==> !can_serve(self@, key@, #[trigger] ids@[j]),
            decreases ids@.len() - i,
        {
            let id: u128 = ids[i];
            assert(ids@.contains(id));
            if let Some(info) = self.healthy_member(key, &id) {
                if table_contains(&self.sessions, &info.session_id) {
                    assert(can_serve(self@, key@, id));
                    return true;
                }
            }
            i = i + 1;
        }
        assert forall|id: u128| !can_serve(self@, key@, id) by {
            if can_serve(self@, key@, id) {
                assert(ids@.contains(id));
            }
        }
        false
    }

    /// A healthy member of a route's group, which one is left to chance.
    fn choose_member(&self, key: &TunnelKey) -> (r: Option<u128>)
        ensures
            match r {
                Some(id) => group_at(self@, key@) is Some && is_healthy_member(
                    group_at(self@, key@)->0,
                    id,
                ),
                None => group_at(self@, key@) matches Some(g) ==> healthy_ids(g) =~= Set::empty(),
            },
    {
        let ids: Vec<u128> = self.healthy_members(key);
        match choose_below(ids.len()) {
            Some(i) => {
                assert(ids@.contains(ids@[i as int]));
                Some(ids[i])
            },
            None => {
                proof {
                    if group_at(self@, key@) is Some {
                        let g = group_at(self@, key@)->0;
                        assert forall|id: u128| !healthy_ids(g).contains(id) by {
                            if healthy_ids(g).contains(id) {
                                assert(is_healthy_member(g, id));
                                assert(ids@.contains(id));
                            }
                        }
                        assert(healthy_ids(g) =~= Set::empty());
                    }
                }
                None
            },
        }
    }

    /// Sends a request for a route to a healthy member, which one is left to chance.
    fn dispatch_member(&mut self, key: &TunnelKey) -> (r: Option<TunnelInfo>)
        ensures
            resolved(old(self)@, final(self)@, key@, r),
    {
        match self.choose_member(key) {
            Some(chosen) => self.dispatch_to(key, &chosen),
            None => None,
        }
    }

    /// Picks a healthy member for a request for a route, which one is left to chance. The
    /// request counts once it is let through: see [`TunnelCore::count_request`].
    fn pick_member(&self, key: &TunnelKey) -> (r: Option<TunnelInfo>)
        ensures
            picked(self@, key@, r),
    {
        let chosen: u128 = match self.choose_member(key) {
            Some(id) => id,
            None => {
                return None;
            },
        };
        let ghost g = group_at(self@, key@)->0;
        assert(is_healthy_member(g, chosen));
        match self.healthy_member(key, &chosen) {
            Some(info) => {
                if table_contains(&self.sessions, &info.session_id) {
                    assert(can_serve(self@, key@, chosen));
                    Some(info)
                } else {
                    None
                }
            },
            None => None,
        }
    }

    /// Picks a healthy member of the group that serves a subdomain; see
    /// [`TunnelCore::resolve_http`]. Nothing is counted.
    pub fn pick_http(&self, subdomain: &str) -> (r: Option<TunnelInfo>)
        ensures
            picked(self@, KeyModel::Http(subdomain@), r),
    {
        self.pick_member(&TunnelKey::Http(subdomain.to_owned()))
    }

    /// Picks a healthy member of the group that serves a UDP port; see
    /// [`TunnelCore::resolve_http`]. Nothing is counted.
    pub fn pick_udp(&self, port: u16) -> (r: Option<TunnelInfo>)
        ensures
            picked(self@, KeyModel::Udp(port), r),
    {
        self.pick_member(&TunnelKey::Udp(port))
    }

    /// Counts a request that goes to a tunnel; an unknown tunnel is passed over.
    pub fn count_request(&mut self, tunnel_id: &u128)
        ensures
            final(self)@ == request_counted(old(self)@, *tunnel_id),
    {
        let ghost c = self@;
        let ghost id = *tunnel_id;
        let key: TunnelKey = match self.tunnel_key(tunnel_id) {
            Some(k) => k,
            None => {
                return;
            },
        };
        match &key {
            TunnelKey::P2p(name) => {
                match table_remove(&mut self.p2p_tunnels, name) {
                    Some(publisher) => {
                        let mut p: P2pPublisher = publisher;
                        p.tunnel_info.request_count = p.tunnel_info.request_count.wrapping_add(1);
                        table_insert(&mut self.p2p_tunnels, name.clone(), p);
                    },
                    None => {},
                }
                assert(self@ =~= request_counted(c, id));
            },
            _ => {
                match self.take_group(&key) {
                    Some(found) => {
                        let mut g: TunnelGroup = found;
                        let _known: Option<TunnelInfo> = g.count_request(tunnel_id);
                        self.put_group(&key, g);
                    },
                    None => {},
                }
                assert(self@ =~= request_counted(c, id));
            },
        }
    }

    /// Sends a request for a subdomain to a healthy member of its group, which one is left
    /// to chance. `None` where nobody serves it, no member is healthy, or the session of the
    /// one picked has gone.
    pub fn resolve_http(&mut self, subdomain: &str) -> (r: Option<TunnelInfo>)
        ensures
            resolved(old(self)@, final(self)@, KeyModel::Http(subdomain@), r),
    {
        self.dispatch_member(&TunnelKey::Http(subdomain.to_owned()))
    }

    /// Sends a connection on a TCP port to a healthy member of its group; see
    /// [`TunnelCore::resolve_http`].
    pub fn resolve_tcp(&mut self, port: u16) -> (r: Option<TunnelInfo>)
        ensures
            resolved(old(self)@, final(self)@, KeyModel::Tcp(port), r),
    {
        self.dispatch_member(&TunnelKey::Tcp(port))
    }

    /// Sends a datagram on a UDP port to a healthy member of its group; see
    /// [`TunnelCore::resolve_http`].
    pub fn resolve_udp(&mut self, port: u16) -> (r: Option<TunnelInfo>)
        ensures
            resolved(old(self)@, final(self)@, KeyModel::Udp(port), r),
    {
        self.dispatch_member(&TunnelKey::Udp(port))
    }

    /// Adds `n` to the bytes that a tunnel has carried; an unknown tunnel is passed over.
    pub fn add_bytes_proxied(&mut self, tunnel_id: &u128, n: u64)
        ensures
            final(self)@ == bytes_added(old(self)@, *tunnel_id, n),
    {
        let ghost c = self@;
        let ghost id = *tunnel_id;
        let key: TunnelKey = match self.tunnel_key(tunnel_id) {
            Some(k) => k,
            None => {
                return;
            },
        };
        match &key {
            TunnelKey::P2p(name) => {
                match table_remove(&mut self.p2p_tunnels, name) {
                    Some(publisher) => {
                        let mut p: P2pPublisher = publisher;
                        p.tunnel_info.bytes_proxied = p.tunnel_info.bytes_proxied.wrapping_add(n);
                        table_insert(&mut self.p2p_tunnels, name.clone(), p);
                    },
                    None => {},
                }
                assert(self@ =~= bytes_added(c, id, n));
            },
            _ => {
                match self.take_group(&key) {
                    Some(found) => {
                        let mut g: TunnelGroup = found;
                        let _known: bool = g.count_bytes(tunnel_id, n);
                        self.put_group(&key, g);
                    },
                    None => {},
                }
                assert(self@ =~= bytes_added(c, id, n));
            },
        }
    }

    // ── peer to peer ─────────────────────────────────────────────────────────

    /// Sends a subscriber to the publisher of a name, and counts it. `None` where nobody
    /// publishes it or the publisher's session has gone. What comes back shows the count with
    /// this request in it.
    pub fn resolve_p2p(&mut self, name: &str) -> (r: Option<P2pPublisher>)
        ensures
            r is Some <==> is_published(old(self)@, name@),
            r is None ==> final(self)@ == old(self)@,
            r matches Some(p) ==> final(self)@ == p2p_dispatched(old(self)@, name@) && p@
                == final(self)@.p2p[name@],
    {
        let ghost c = self@;
        let key: String = name.to_owned();
        let mut publisher: P2pPublisher = match table_remove(&mut self.p2p_tunnels, &key) {
            Some(p) => p,
            None => {
                assert(self@ =~= c);
                return None;
            },
        };
        if !table_contains(&self.sessions, &publisher.tunnel_info.session_id) {
            table_insert(&mut self.p2p_tunnels, key, publisher);
            assert(self@ =~= c);
            return None;
        }
        publisher.tunnel_info.request_count = publisher.tunnel_info.request_count.wrapping_add(1);
        let r: P2pPublisher = publisher.clone();
        table_insert(&mut self.p2p_tunnels, key, publisher);
        assert(self@ =~= p2p_dispatched(c, name@));
        Some(r)
    }

    /// The hash of the secret under which a name is published; `None` where nobody publishes
    /// it or the publisher's session has gone. This counts nothing.
    pub fn published_secret(&self, name: &str) -> (r: Option<String>)
        ensures
            opt_text(r) == if is_published(self@, name@) {
                Some(self@.p2p[name@].secret_hash)
            } else {
                None
            },
    {
        let key: String = name.to_owned();
        let found: Option<P2pPublisher> = table_view(
            &self.p2p_tunnels,
            &key,
            |p: &P2pPublisher| -> (x: P2pPublisher) ensures x@ == p@ { p.clone() },
        );
        match found {
            Some(p) => {
                if table_contains(&self.sessions, &p.tunnel_info.session_id) {
                    Some(p.secret_hash)
                } else {
                    None
                }
            },
            None => None,
        }
    }

    /// Notes what a publisher's client found out about its own network.
    pub fn update_p2p_nat_info(
        &mut self,
        tunnel_id: &u128,
        nat_type: String,
        mapped_addrs: Vec<String>,
    )
        ensures
            final(self)@ == nat_updated(old(self)@, *tunnel_id, nat_type@, texts(mapped_addrs@)),
    {
        let ghost c = self@;
        match self.tunnel_key(tunnel_id) {
            Some(TunnelKey::P2p(name)) => {
                match table_remove(&mut self.p2p_tunnels, &name) {
                    Some(publisher) => {
                        let mut p: P2pPublisher = publisher;
                        p.nat_type = Some(nat_type);
                        p.mapped_addrs = mapped_addrs;
                        table_insert(&mut self.p2p_tunnels, name, p);
                    },
                    None => {},
                }
            },
            _ => {},
        }
        assert(self@ =~= nat_updated(c, *tunnel_id, nat_type@, texts(mapped_addrs@)));
    }

    // ── news for the edges ───────────────────────────────────────────────────

    /// What the TCP edge has yet to be told, oldest first. It counts as told.
    pub fn take_tcp_events(&mut self) -> (r: Vec<TcpTunnelEvent>)
        ensures
            r@ == old(self)@.tcp_events,
            final(self)@ == (CoreModel { tcp_events: Seq::empty(), ..old(self)@ }),
    {
        let mut out: Vec<TcpTunnelEvent> = Vec::new();
        out.append(&mut self.tcp_events);
        assert(out@ =~= old(self)@.tcp_events);
        out
    }

    /// What the UDP edge has yet to be told, oldest first. It counts as told.
    pub fn take_udp_events(&mut self) -> (r: Vec<UdpTunnelEvent>)
        ensures
            r@ == old(self)@.udp_events,
            final(self)@ == (CoreModel { udp_events: Seq::empty(), ..old(self)@ }),
    {
        let mut out: Vec<UdpTunnelEvent> = Vec::new();
        out.append(&mut self.udp_events);
        assert(out@ =~= old(self)@.udp_events);
        out
    }

    /// What the subscribers of group events have yet to be told, oldest first. It counts as
    /// told.
    pub fn take_group_events(&mut self) -> (r: Vec<GroupEvent>)
        ensures
            group_events(r@) == old(self)@.group_events,
            final(self)@ == (CoreModel { group_events: Seq::empty(), ..old(self)@ }),
    {
        let mut out: Vec<GroupEvent> = Vec::new();
        out.append(&mut self.group_events);
        assert(group_events(out@) =~= old(self)@.group_events);
        assert(self@.group_events =~= Seq::<GroupEventModel>::empty());
        out
    }
}

impl TunnelGroup {
    /// What the member `id` is registered as, if that one is healthy.
    pub fn healthy_member(&self, id: &u128) -> (r: Option<TunnelInfo>)
        ensures
            healthy_member_of(self@, *id, r),
    {
        let found: Option<Option<TunnelInfo>> = table_view(
            &self.members,
            id,
            |m: &crate::tunnel::GroupMember| -> (x: Option<TunnelInfo>) ensures (if m@.healthy { x is Some && (x->0)@ == m@.info } else { x is None }) { if m.healthy { Some(m.info.clone()) } else { None } },
        );
        match found {
            Some(info) => info,
            None => None,
        }
    }

    /// The session that owns the member `id`, if that one is healthy.
    pub fn healthy_member_session(&self, id: &u128) -> (r: Option<u128>)
        ensures
            r == if is_healthy_member(self@, *id) {
                Some(self@.members[*id].info.session_id)
            } else {
                None
            },
    {
        let found: Option<Option<u128>> = table_view(
            &self.members,
            id,
            |m: &crate::tunnel::GroupMember| -> (x: Option<u128>) ensures x == (if m@.healthy { Some(m@.info.session_id) } else { None }) { if m.healthy { Some(m.info.session_id) } else { None } },
        );
        match found {
            Some(s) => s,
            None => None,
        }
    }
}

/// `x` is what the member `id` of `g` is registered as.
pub open spec fn member_of(g: GroupModel, id: u128, x: Option<TunnelInfo>) -> bool {
    match x {
        Some(info) => g.members.contains_key(id) && info@ == g.members[id].info,
        None => !g.members.contains_key(id),
    }
}

/// `x` is what the member `id` of `g` is registered as, if that one is healthy.
pub open spec fn healthy_member_of(g: GroupModel, id: u128, x: Option<TunnelInfo>) -> bool {
    match x {
        Some(info) => is_healthy_member(g, id) && info@ == g.members[id].info,
        None => !is_healthy_member(g, id),
    }
}

/// `ids` lists the healthy members of `g`, each once.
pub open spec fn lists_healthy(g: GroupModel, ids: Seq<u128>) -> bool {
    ids.no_duplicates() && ids.to_set() == healthy_ids(g)
}

/// Whether a request for a route may go nowhere: no member is healthy, or a healthy one has
/// lost its session.
pub open spec fn may_be_unserved(c: CoreModel, key: KeyModel) -> bool {
    group_at(c, key) matches Some(g) ==> {
        ||| healthy_ids(g) =~= Set::empty()
        ||| exists|id: u128| #[trigger]
            is_healthy_member(g, id) && !c.sessions.contains_key(g.members[id].info.session_id)
    }
}

/// What picking a member for a route may give: what one that can serve is registered as; or,
/// where it fails, either no member was healthy or a healthy one had lost its session.
pub open spec fn picked(c: CoreModel, key: KeyModel, r: Option<TunnelInfo>) -> bool {
    match r {
        Some(info) => exists|id: u128| #[trigger]
            can_serve(c, key, id) && info@ == (group_at(c, key)->0).members[id].info,
        None => may_be_unserved(c, key),
    }
}

/// What resolving a route may do. It goes to a member that can serve, and counts it there;
/// or, where it fails, nothing changes, and either no member was healthy or a healthy one
/// had lost its session.
pub open spec fn resolved(
    before: CoreModel,
    after: CoreModel,
    key: KeyModel,
    r: Option<TunnelInfo>,
) -> bool {
    match r {
        Some(info) => exists|id: u128| #[trigger]
            can_serve(before, key, id) && after == dispatched(before, key, id) && info@ == (
            group_at(after, key)->0).members[id].info,
        None => after == before && may_be_unserved(before, key),
    }
}

} // verus!
