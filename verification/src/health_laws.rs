//! What a report on a tunnel's health does, what is told of it, and what traffic and removal
//! leave behind.
use crate::frames::{frame_handled, FrameStep};
use crate::group::{
    alert_url, healthy_ids, is_earlier, is_first_at, lists_alert_urls, GroupEventModel, GroupModel,
};
use crate::protocol::FrameModel;
use crate::router_model::{alert_sent, marked_healthy, marked_unhealthy, CoreModel, KeyModel};
use crate::session::ConfigModel;
use crate::text::{decimal, texts};
use crate::tunnel::{HealthEventModel, MemberModel};
use vstd::prelude::*;

verus! {

/// The group that a tunnel is a member of, found by where the tunnel is routed.
pub open spec fn home(c: CoreModel, id: u128) -> Option<GroupModel> {
    if !c.index.contains_key(id) {
        None
    } else {
        match c.index[id] {
            KeyModel::Http(s) => if c.http.contains_key(s) && c.http[s].members.contains_key(id) {
                Some(c.http[s])
            } else {
                None
            },
            KeyModel::Tcp(p) => if c.tcp.contains_key(p) && c.tcp[p].members.contains_key(id) {
                Some(c.tcp[p])
            } else {
                None
            },
            KeyModel::Udp(p) => if c.udp.contains_key(p) && c.udp[p].members.contains_key(id) {
                Some(c.udp[p])
            } else {
                None
            },
            KeyModel::P2p(_) => None,
        }
    }
}

/// Whether `after` differs from `before` in nothing but the group that the tunnel `id` is a
/// member of, and in what subscribers are yet to be told.
pub open spec fn differs_at_home(before: CoreModel, after: CoreModel, id: u128) -> bool {
    &&& after == (CoreModel {
        http: after.http,
        tcp: after.tcp,
        udp: after.udp,
        group_events: after.group_events,
        ..before
    })
    &&& after.http.dom() =~= before.http.dom()
    &&& after.tcp.dom() =~= before.tcp.dom()
    &&& after.udp.dom() =~= before.udp.dom()
    &&& forall|s: Seq<char>| #[trigger]
        before.http.contains_key(s) && before.index[id] != KeyModel::Http(s) ==> after.http[s]
            == before.http[s]
    &&& forall|p: u16| #[trigger]
        before.tcp.contains_key(p) && before.index[id] != KeyModel::Tcp(p) ==> after.tcp[p]
            == before.tcp[p]
    &&& forall|p: u16| #[trigger]
        before.udp.contains_key(p) && before.index[id] != KeyModel::Udp(p) ==> after.udp[p]
            == before.udp[p]
}

/// Whether `h` differs from `g` in nothing but its member `id`.
pub open spec fn differs_in_member(g: GroupModel, h: GroupModel, id: u128) -> bool {
    &&& h.name == g.name
    &&& h.key_hash == g.key_hash
    &&& h.members.dom() =~= g.members.dom()
    &&& forall|other: u128| #[trigger]
        g.members.contains_key(other) && other != id ==> h.members[other] == g.members[other]
}

/// A group's healthy members are the members that are healthy.
pub proof fn law_healthy_members(g: GroupModel, id: u128)
    ensures
        healthy_ids(g).contains(id) <==> g.members.contains_key(id) && g.members[id].healthy,
{
}

/// What is told of a tunnel's flip: where the tunnel is routed, which one it is, what its
/// health is now, and how many members of its group are healthy now.
pub open spec fn tells_health(e: GroupEventModel, key: KeyModel, id: u128, g: GroupModel) -> bool {
    &&& match key {
        KeyModel::Http(s) => e.protocol == "http"@ && e.label == s,
        KeyModel::Tcp(p) => e.protocol == "tcp"@ && e.label == decimal(p as nat),
        KeyModel::Udp(p) => e.protocol == "udp"@ && e.label == decimal(p as nat),
        KeyModel::P2p(_) => false,
    }
    &&& e.tunnel_id == id
    &&& e.healthy == g.members[id].healthy
    &&& e.healthy_count == healthy_ids(g).len()
    &&& e.member_count == g.members.dom().len()
}

/// What a member remembers of its transitions after one more: the new one is the last, and of
/// the earlier ones all are kept but for the oldest once there are fifty.
pub open spec fn remembers(
    old_events: Seq<HealthEventModel>,
    new_events: Seq<HealthEventModel>,
    e: HealthEventModel,
) -> bool {
    &&& new_events.len() > 0 && new_events.last() == e
    &&& old_events.len() < 50 ==> new_events.drop_last() == old_events
    &&& old_events.len() >= 50 ==> new_events.drop_last() == old_events.skip(1)
}

/// A good report makes the tunnel healthy, whatever it was; it ends the run of failures, arms
/// the alert of the group again and touches nothing else. Where the tunnel was unhealthy, the
/// recovery goes into its history and subscribers are told.
pub proof fn law_good_report(c: CoreModel, id: u128, at: u64)
    requires
        home(c, id) is Some,
    ensures
        ({
            let after = marked_healthy(c, id, at);
            let g = home(c, id)->0;
            let h = home(after, id)->0;
            let (m, n) = (g.members[id], h.members[id]);
            &&& home(after, id) is Some
            &&& differs_at_home(c, after, id) && differs_in_member(g, h, id)
            &&& !h.zero_healthy_alerted
            &&& n.healthy && n.consecutive_failures == 0
            &&& n.total_health_failures == m.total_health_failures && n.info == m.info
                && n.health_spec == m.health_spec
            &&& m.healthy ==> after.group_events == c.group_events && n.health_events
                == m.health_events
            &&& !m.healthy ==> {
                &&& after.group_events.len() == c.group_events.len() + 1
                &&& after.group_events.drop_last() == c.group_events
                &&& tells_health(after.group_events.last(), c.index[id], id, h)
                &&& after.group_events.last().reason == "recovered"@
                &&& remembers(
                    m.health_events,
                    n.health_events,
                    HealthEventModel { at, healthy: true, reason: "recovered"@ },
                )
            }
        }),
{
    let g = home(c, id)->0;
    assert(g.members.insert(id, g.members[id]).dom() =~= g.members.dom());
    lemma_ring(
        g.members[id].health_events,
        HealthEventModel { at, healthy: true, reason: "recovered"@ },
    );
    assert(c.group_events =~= marked_healthy(c, id, at).group_events.take(
        c.group_events.len() as int,
    ));
}

/// What a history keeps.
proof fn lemma_ring(events: Seq<HealthEventModel>, e: HealthEventModel)
    ensures
        remembers(events, crate::tunnel::ring_push(events, e), e),
{
    if events.len() >= 50 {
        assert(events.drop_first().push(e).drop_last() =~= events.skip(1));
    } else {
        assert(events.push(e).drop_last() =~= events);
    }
}

/// A bad report makes the tunnel unhealthy, whatever it was; it counts as one more failure, in
/// a row and in all, leaves the alert as it is and touches nothing else. Where the tunnel was
/// healthy, the reason goes into its history and subscribers are told.
pub proof fn law_bad_report(c: CoreModel, id: u128, reason: Seq<char>, at: u64)
    requires
        home(c, id) is Some,
    ensures
        ({
            let after = marked_unhealthy(c, id, reason, at);
            let g = home(c, id)->0;
            let h = home(after, id)->0;
            let (m, n) = (g.members[id], h.members[id]);
            &&& home(after, id) is Some
            &&& differs_at_home(c, after, id) && differs_in_member(g, h, id)
            &&& h.zero_healthy_alerted == g.zero_healthy_alerted
            &&& !n.healthy
            &&& m.consecutive_failures < u32::MAX ==> n.consecutive_failures
                == m.consecutive_failures + 1
            &&& m.total_health_failures < u64::MAX ==> n.total_health_failures
                == m.total_health_failures + 1
            &&& n.info == m.info && n.health_spec == m.health_spec
            &&& !m.healthy ==> after.group_events == c.group_events && n.health_events
                == m.health_events
            &&& m.healthy ==> {
                &&& after.group_events.len() == c.group_events.len() + 1
                &&& after.group_events.drop_last() == c.group_events
                &&& tells_health(after.group_events.last(), c.index[id], id, h)
                &&& after.group_events.last().reason == reason
                &&& remembers(
                    m.health_events,
                    n.health_events,
                    HealthEventModel { at, healthy: false, reason },
                )
            }
        }),
{
    let g = home(c, id)->0;
    lemma_ring(g.members[id].health_events, HealthEventModel { at, healthy: false, reason });
    assert(c.group_events =~= marked_unhealthy(c, id, reason, at).group_events.take(
        c.group_events.len() as int,
    ));
}

/// Whenever a report adds to what subscribers are told, what is added says the health that the
/// tunnel has after the report: healthy after a good report, unhealthy after a bad one. And it
/// is added exactly where the report changes the tunnel's health.
pub proof fn law_events_tell_the_truth(c: CoreModel, id: u128, reason: Seq<char>, at: u64)
    ensures
        ({
            let good = marked_healthy(c, id, at);
            let bad = marked_unhealthy(c, id, reason, at);
            &&& good.group_events.len() > c.group_events.len() ==> home(good, id) is Some && (home(
                good,
                id,
            )->0).members[id].healthy && good.group_events.last().healthy
                && good.group_events.last().tunnel_id == id
            &&& bad.group_events.len() > c.group_events.len() ==> home(bad, id) is Some && !(home(
                bad,
                id,
            )->0).members[id].healthy && !bad.group_events.last().healthy
                && bad.group_events.last().tunnel_id == id
            &&& good.group_events.len() > c.group_events.len() <==> home(c, id) is Some && !(home(
                c,
                id,
            )->0).members[id].healthy
            &&& bad.group_events.len() > c.group_events.len() <==> home(c, id) is Some && (home(
                c,
                id,
            )->0).members[id].healthy
        }),
{
}

/// A report on a tunnel that is no member of a group changes nothing.
pub proof fn law_reports_on_strangers(c: CoreModel, id: u128, reason: Seq<char>, at: u64)
    requires
        home(c, id) is None,
    ensures
        marked_healthy(c, id, at) == c,
        marked_unhealthy(c, id, reason, at) == c,
{
}

/// A client's bad report on its own tunnel leads to an alert exactly if the tunnel is in a pool,
/// no other member of the pool is healthy, and no alert has gone out since the last good
/// report. The group then knows of the alert, and nothing else of it changes.
pub proof fn law_bad_report_alerts_when_none_is_left(
    before: CoreModel,
    after: CoreModel,
    cfg: ConfigModel,
    session_id: u128,
    tunnel_id: u128,
    reason: Seq<char>,
    conn_id: u128,
    at: u64,
    now: u64,
    step: FrameStep,
)
    requires
        home(before, tunnel_id) matches Some(g) && g.members[tunnel_id].info.session_id
            == session_id && g.members.dom().finite(),
        frame_handled(
            before,
            after,
            cfg,
            session_id,
            FrameModel::TunnelUnhealthy { tunnel_id, reason },
            conn_id,
            at,
            now,
            step,
        ),
    ensures
        ({
            let g = home(before, tunnel_id)->0;
            let failed = marked_unhealthy(before, tunnel_id, reason, at);
            &&& step is Alert <==> g.key_hash is Some && !g.zero_healthy_alerted && forall|
                other: u128,
            | #[trigger]
                g.members.contains_key(other) && other != tunnel_id ==> !g.members[other].healthy
            &&& step is Alert || step is Ignore
            &&& step is Ignore ==> after == failed
            &&& step is Alert ==> {
                &&& home(after, tunnel_id) == Some(
                    GroupModel { zero_healthy_alerted: true, ..home(failed, tunnel_id)->0 },
                )
                &&& differs_at_home(failed, after, tunnel_id)
                &&& after.group_events == failed.group_events
            }
        }),
{
    let g = home(before, tunnel_id)->0;
    let failed = marked_unhealthy(before, tunnel_id, reason, at);
    let h = home(failed, tunnel_id)->0;
    law_bad_report(before, tunnel_id, reason, at);
    assert(healthy_ids(h).finite());
    if healthy_ids(h).len() == 0 {
        assert(healthy_ids(h) =~= Set::empty());
        assert forall|other: u128| #[trigger]
            g.members.contains_key(other) && other != tunnel_id implies !g.members[other].healthy by {
            assert(!healthy_ids(h).contains(other));
            assert(h.members[other] == g.members[other]);
        }
    } else if forall|other: u128| #[trigger]
        g.members.contains_key(other) && other != tunnel_id ==> !g.members[other].healthy {
        assert forall|other: u128| !healthy_ids(h).contains(other) by {
            if healthy_ids(h).contains(other) {
                assert(g.members.contains_key(other));
            }
        }
        assert(healthy_ids(h) =~= Set::empty());
        assert(false);
    }
    assert(alert_sent(failed, tunnel_id).index == failed.index);
}

/// What an alert says, and to whom it goes: it names the region, the route, the pool, the first
/// eight characters of its key's hash and the number of its members. It goes to the operator's
/// address first, if there is one, and to every address that a member gave, each once.
pub proof fn law_what_an_alert_says(
    before: CoreModel,
    after: CoreModel,
    cfg: ConfigModel,
    session_id: u128,
    tunnel_id: u128,
    reason: Seq<char>,
    conn_id: u128,
    at: u64,
    now: u64,
    step: FrameStep,
)
    requires
        home(before, tunnel_id) is Some,
        frame_handled(
            before,
            after,
            cfg,
            session_id,
            FrameModel::TunnelUnhealthy { tunnel_id, reason },
            conn_id,
            at,
            now,
            step,
        ),
    ensures
        step matches FrameStep::Alert(order) ==> ({
            let g = home(before, tunnel_id)->0;
            let p = order.payload@;
            let to = texts(order.destinations@);
            let tenants = if cfg.alert_webhook_url is Some {
                to.skip(1)
            } else {
                to
            };
            let hash = g.key_hash->0;
            &&& p.region_id == cfg.region_id
            &&& match before.index[tunnel_id] {
                KeyModel::Http(s) => p.protocol == "http"@ && p.label == s,
                KeyModel::Tcp(port) => p.protocol == "tcp"@ && p.label == decimal(port as nat),
                KeyModel::Udp(port) => p.protocol == "udp"@ && p.label == decimal(port as nat),
                KeyModel::P2p(_) => false,
            }
            &&& p.group_name == g.name
            &&& p.key_hash_short == if hash.len() <= 8 {
                hash
            } else {
                hash.take(8)
            }
            &&& p.member_count == g.members.dom().len()
            &&& cfg.alert_webhook_url matches Some(url) ==> to.len() > 0 && to[0] == url
            &&& tenants.no_duplicates()
            &&& forall|id: u128| #[trigger]
                g.members.contains_key(id) ==> (g.members[id].health_spec matches Some(check) ==> (
                check.alert_webhook_url matches Some(url) ==> tenants.contains(url)))
            &&& forall|url: Seq<char>| #[trigger]
                tenants.contains(url) ==> exists|id: u128| #[trigger]
                    g.members.contains_key(id) && g.members[id].health_spec is Some && (
                    g.members[id].health_spec->0).alert_webhook_url == Some(url)
        }),
{
    if let FrameStep::Alert(order) = step {
        let g = home(before, tunnel_id)->0;
        let failed = marked_unhealthy(before, tunnel_id, reason, at);
        let h = home(failed, tunnel_id)->0;
        law_bad_report(before, tunnel_id, reason, at);
        let to = texts(order.destinations@);
        assert(to.skip(0) =~= to);
        let tenants = if cfg.alert_webhook_url is Some {
            to.skip(1)
        } else {
            to
        };
        assert(lists_alert_urls(tenants, h));
        assert forall|id: u128| #[trigger] g.members.contains_key(id) implies h.members.contains_key(
            id,
        ) && h.members[id].health_spec == g.members[id].health_spec by {}
        assert forall|id: u128| #[trigger] g.members.contains_key(id) implies (
        g.members[id].health_spec matches Some(check) ==> (check.alert_webhook_url matches Some(url)
            ==> tenants.contains(url))) by {
            if g.members[id].health_spec is Some && (
            g.members[id].health_spec->0).alert_webhook_url is Some {
                let url = (g.members[id].health_spec->0).alert_webhook_url->0;
                assert(h.members.contains_key(id));
                assert(alert_url(h.members[id]) == Some(url));
                assert(crate::group::is_alert_url(h, url));
            }
        }
        assert forall|url: Seq<char>| #[trigger] tenants.contains(url) implies exists|id: u128|
         #[trigger]
            g.members.contains_key(id) && g.members[id].health_spec is Some && (
            g.members[id].health_spec->0).alert_webhook_url == Some(url) by {
            assert(crate::group::is_alert_url(h, url));
            let id = choose|id: u128| #[trigger]
                h.members.contains_key(id) && alert_url(h.members[id]) == Some(url);
            assert(g.members.contains_key(id));
        }
    }
}

/// Whether the member `id` of `g` gave an address, and every other that gave it registered later.
pub open spec fn gave_first(g: GroupModel, id: u128, url: Seq<char>) -> bool {
    &&& g.members.contains_key(id) && alert_url(g.members[id]) == Some(url)
    &&& forall|other: u128| #[trigger]
        g.members.contains_key(other) && other != id && alert_url(g.members[other]) == Some(url)
            ==> g.members[id].info.created_at < g.members[other].info.created_at
}

/// The addresses that members gave stand in the order in which they were first given: of two,
/// the one that was given earlier stands before the other.
pub proof fn law_alerts_go_in_order(
    urls: Seq<Seq<char>>,
    g: GroupModel,
    i: int,
    j: int,
    a: u128,
    b: u128,
)
    requires
        lists_alert_urls(urls, g),
        0 <= i < urls.len(),
        0 <= j < urls.len(),
        gave_first(g, a, urls[i]),
        gave_first(g, b, urls[j]),
        g.members[a].info.created_at < g.members[b].info.created_at,
    ensures
        i < j,
{
    assert(is_first_at(g, urls[i], a));
    assert(is_first_at(g, urls[j], b));
    if i == j {
        assert(g.members.contains_key(a));
    }
    if j < i {
        assert(is_earlier(g, b, a));
    }
}

/// Where a member wants to hear of trouble is what its health check says, if it has one.
pub proof fn law_alert_addresses(m: MemberModel)
    ensures
        m.health_spec is None ==> alert_url(m) is None,
        m.health_spec matches Some(check) ==> alert_url(m) == check.alert_webhook_url,
{
}

} // verus!
