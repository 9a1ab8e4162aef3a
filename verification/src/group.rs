//! Groups: the members that share one subdomain or one port.
use crate::protocol::{opt_health, HealthCheckSpec, HealthSpecModel, TunnelProtocol};
use crate::table::{
    has_size, lists_keys, table_insert, table_keys, table_len, table_remove, table_view, Contents,
};
use crate::text::{opt_text, opt_text_clone, texts, texts_contain};
use crate::tunnel::{
    info_dispatched, info_proxied, member_failed, member_recovered, trusted_member, GroupMember,
    MemberModel, TunnelInfo, TunnelModel,
};
use dashmap::DashMap;
use vstd::prelude::*;

verus! {

/// What a table of members holds: each member under its tunnel id.
pub uninterp spec fn member_table(m: DashMap<u128, GroupMember>) -> Map<u128, MemberModel>;

impl Contents<u128, MemberModel> for DashMap<u128, GroupMember> {
    open spec fn contents(&self) -> Map<u128, MemberModel> {
        member_table(*self)
    }
}

/// `DashMap::new`: a table without members.
#[verifier::external_body]
fn new_member_table() -> (r: DashMap<u128, GroupMember>)
    ensures
        member_table(r) =~= Map::empty(),
{
    DashMap::new()
}

/// The members behind one route.
pub struct TunnelGroup {
    /// The subdomain or port of a lone tunnel; of a pool, the name that its first member gave.
    pub name: String,
    /// The hash of the key that members of a pool share; `None` for a lone tunnel.
    pub key_hash: Option<String>,
    /// The members, by tunnel id.
    pub members: DashMap<u128, GroupMember>,
    /// Whether the alert for "no healthy member left" has gone out and none has recovered since.
    pub zero_healthy_alerted: bool,
}

/// The view of a [`TunnelGroup`].
#[verifier::ext_equal]
pub struct GroupModel {
    pub name: Seq<char>,
    pub key_hash: Option<Seq<char>>,
    pub members: Map<u128, MemberModel>,
    pub zero_healthy_alerted: bool,
}

impl View for TunnelGroup {
    type V = GroupModel;

    open spec fn view(&self) -> GroupModel {
        GroupModel {
            name: self.name@,
            key_hash: opt_text(self.key_hash),
            members: member_table(self.members),
            zero_healthy_alerted: self.zero_healthy_alerted,
        }
    }
}

/// A group that `member` opens.
pub open spec fn seeded_group(
    name: Seq<char>,
    key_hash: Option<Seq<char>>,
    member: MemberModel,
) -> GroupModel {
    GroupModel {
        name,
        key_hash,
        members: Map::empty().insert(member.info.tunnel_id, member),
        zero_healthy_alerted: false,
    }
}

/// The group of a lone tunnel.
pub open spec fn solo_group(name: Seq<char>, info: TunnelModel) -> GroupModel {
    seeded_group(name, None, trusted_member(info))
}

/// `g` with one more member.
pub open spec fn group_joined(g: GroupModel, member: MemberModel) -> GroupModel {
    GroupModel { members: g.members.insert(member.info.tunnel_id, member), ..g }
}

/// `g` without the member `id`.
pub open spec fn group_left(g: GroupModel, id: u128) -> GroupModel {
    GroupModel { members: g.members.remove(id), ..g }
}

/// `g` with the member `id` changed to `member`.
pub open spec fn group_updated(g: GroupModel, id: u128, member: MemberModel) -> GroupModel {
    GroupModel { members: g.members.insert(id, member), ..g }
}

/// `g` after a good report on its member `id`: the alert is armed again.
pub open spec fn group_recovered(g: GroupModel, id: u128, at: u64) -> GroupModel {
    GroupModel {
        zero_healthy_alerted: false,
        ..group_updated(g, id, member_recovered(g.members[id], at))
    }
}

/// `g` after a bad report on its member `id`.
pub open spec fn group_failed(g: GroupModel, id: u128, reason: Seq<char>, at: u64) -> GroupModel {
    group_updated(g, id, member_failed(g.members[id], reason, at))
}

/// `g` after one more request went to its member `id`.
pub open spec fn group_dispatched(g: GroupModel, id: u128) -> GroupModel {
    group_updated(
        g,
        id,
        MemberModel { info: info_dispatched(g.members[id].info), ..g.members[id] },
    )
}

/// `g` after its member `id` carried `n` more bytes.
pub open spec fn group_proxied(g: GroupModel, id: u128, n: u64) -> GroupModel {
    group_updated(
        g,
        id,
        MemberModel { info: info_proxied(g.members[id].info, n), ..g.members[id] },
    )
}

/// Whether `id` is a healthy member of `g`.
pub open spec fn is_healthy_member(g: GroupModel, id: u128) -> bool {
    g.members.contains_key(id) && g.members[id].healthy
}

/// The healthy members of `g`.
pub open spec fn healthy_ids(g: GroupModel) -> Set<u128> {
    g.members.dom().filter(|id: u128| g.members[id].healthy)
}

/// Whether `p` is the protocol of some member of `g`; `None` stands for a group without members.
pub open spec fn is_member_protocol(g: GroupModel, p: Option<TunnelProtocol>) -> bool {
    match p {
        Some(protocol) => exists|id: u128| #[trigger]
            g.members.contains_key(id) && g.members[id].info.protocol == protocol,
        None => g.members.dom() =~= Set::empty(),
    }
}

/// Where the member `m` wants to hear that its group is down.
pub open spec fn alert_url(m: MemberModel) -> Option<Seq<char>> {
    match m.health_spec {
        Some(spec_) => spec_.alert_webhook_url,
        None => None,
    }
}

/// Whether some member of `g` wants to hear at `url` that the group is down.
pub open spec fn is_alert_url(g: GroupModel, url: Seq<char>) -> bool {
    exists|id: u128| #[trigger]
        g.members.contains_key(id) && alert_url(g.members[id]) == Some(url)
}

/// Whether the alert is due: a pool without a healthy member, not reported yet.
pub open spec fn alert_due(g: GroupModel) -> bool {
    &&& g.key_hash is Some
    &&& healthy_ids(g).len() == 0
    &&& !g.zero_healthy_alerted
}

/// Whether the member `a` of `g` registered before the member `b`. Of two that registered at
/// the same time, the one with the lower id counts as the earlier.
pub open spec fn is_earlier(g: GroupModel, a: u128, b: u128) -> bool {
    let (ta, tb) = (g.members[a].info.created_at, g.members[b].info.created_at);
    ta < tb || (ta == tb && a < b)
}

/// Whether `id` is the earliest member of `g` that wants to hear at `url`.
pub open spec fn is_first_at(g: GroupModel, url: Seq<char>, id: u128) -> bool {
    &&& g.members.contains_key(id) && alert_url(g.members[id]) == Some(url)
    &&& forall|other: u128| #[trigger]
        g.members.contains_key(other) && alert_url(g.members[other]) == Some(url) ==> !is_earlier(
            g,
            other,
            id,
        )
}

/// `urls` holds every address that a member of `g` gave, each once, and no other; and they
/// stand in the order in which the first members that gave them registered.
pub open spec fn lists_alert_urls(urls: Seq<Seq<char>>, g: GroupModel) -> bool {
    &&& urls.no_duplicates()
    &&& forall|url: Seq<char>| #[trigger] urls.contains(url) <==> is_alert_url(g, url)
    &&& forall|i: int, j: int, a: u128, b: u128|
        0 <= i < j < urls.len() && #[trigger] is_first_at(g, urls[i], a) && #[trigger] is_first_at(
            g,
            urls[j],
            b,
        ) ==> is_earlier(g, a, b)
}

/// `ids` lists the members of `g`, each once, in the order in which they registered.
pub open spec fn lists_by_registration(ids: Seq<u128>, g: GroupModel) -> bool {
    &&& forall|i: int, j: int|
        0 <= i < j < ids.len() ==> is_earlier(g, #[trigger] ids[i], #[trigger] ids[j])
    &&& forall|id: u128| #[trigger] ids.contains(id) <==> g.members.contains_key(id)
}

impl GroupMember {
    /// Where the member's tenant wants to hear that the group is down.
    pub fn alert_webhook_url(&self) -> (r: Option<String>)
        ensures
            opt_text(r) == alert_url(self@),
    {
        match &self.health_spec {
            Some(h) => opt_text_clone(&h.alert_webhook_url),
            None => None,
        }
    }
}

impl TunnelGroup {
    /// The group of a lone tunnel: one member, trusted, and no key.
    pub fn new_solo(name: String, info: TunnelInfo) -> (r: Self)
        ensures
            r@ == solo_group(name@, info@),
    {
        Self::new_with_member(name, None, GroupMember::healthy_with(info))
    }

    /// A group that `member` opens.
    pub fn new_with_member(name: String, key_hash: Option<String>, member: GroupMember) -> (r: Self)
        ensures
            r@ == seeded_group(name@, opt_text(key_hash), member@),
    {
        let mut members = new_member_table();
        table_insert(&mut members, member.info.tunnel_id, member);
        let r = TunnelGroup { name, key_hash, members, zero_healthy_alerted: false };
        assert(r@ =~= seeded_group(name@, opt_text(key_hash), member@));
        r
    }

    /// The healthy members, in no fixed order.
    pub fn healthy_members(&self) -> (r: Vec<u128>)
        ensures
            r@.no_duplicates(),
            r@.to_set() == healthy_ids(self@),
            healthy_ids(self@).finite(),
            healthy_ids(self@).len() == r@.len(),
    {
        let keys: Vec<u128> = table_keys(&self.members);
        let mut out: Vec<u128> = Vec::new();
        let mut i: usize = 0;
        while i < keys.len()
            invariant
                i <= keys@.len(),
                lists_keys(keys@, self@.members),
                out@.no_duplicates(),
                forall|id: u128| #[trigger]
                    out@.contains(id) <==> self@.members[id].healthy && keys@.take(
                        i as int,
                    ).contains(id),
            decreases keys@.len() - i,
        {
            let id: u128 = keys[i];
            let healthy: Option<bool> = table_view(
                &self.members,
                &id,
                |m: &GroupMember| -> (h: bool) ensures h == m@.healthy { m.healthy },
            );
            assert(keys@.take(i + 1) =~= keys@.take(i as int).push(id));
            assert(!keys@.take(i as int).contains(id)) by {
                assert forall|j: int| 0 <= j < i implies keys@[j] != id by {
                    assert(keys@[j]@ != keys@[i as int]@);
                }
            }
            let ghost before = out@;
            match healthy {
                Some(true) => {
                    assert(!before.contains(id));
                    out.push(id);
                    assert forall|a: int, b: int| 0 <= a < b < out@.len() implies out@[a] != out@[b] by {
                        if b == before.len() {
                            assert(before.contains(out@[a]));
                        }
                    }
                },
                _ => {},
            }
            assert forall|x: u128| #[trigger]
                out@.contains(x) <==> self@.members[x].healthy && keys@.take(i + 1).contains(
                    x,
                ) by {
                if before.contains(x) {
                    let j = choose|j: int| 0 <= j < before.len() && before[j] == x;
                    assert(out@[j] == x);
                }
                if x == id && self@.members[id].healthy {
                    assert(out@[out@.len() - 1] == id);
                }
                if keys@.take(i as int).contains(x) {
                    let j = choose|j: int|
                        0 <= j < keys@.take(i as int).len() && keys@.take(i as int)[j] == x;
                    assert(keys@.take(i + 1)[j] == x);
                }
                if x == id {
                    assert(keys@.take(i + 1)[i as int] == id);
                }
            }
            i = i + 1;
        }
        proof {
            assert(keys@.take(i as int) =~= keys@);
            assert forall|id: u128| #[trigger]
                out@.to_set().contains(id) <==> healthy_ids(self@).contains(id) by {
                if self@.members.contains_key(id) {
                    let k = choose|k: int| 0 <= k < keys@.len() && (#[trigger] keys@[k])@ == id;
                    assert(keys@.contains(id));
                }
            }
            assert(out@.to_set() =~= healthy_ids(self@));
            out@.unique_seq_to_set();
        }
        out
    }

    /// How many members are healthy.
    pub fn healthy_count(&self) -> (r: usize)
        ensures
            r == healthy_ids(self@).len(),
    {
        self.healthy_members().len()
    }

    /// How many members the group has.
    pub fn member_count(&self) -> (r: usize)
        ensures
            has_size(self@.members, r as nat),
    {
        table_len(&self.members)
    }

    /// The protocol of some member, or `None` in a group without members.
    pub fn member_protocol(&self) -> (r: Option<TunnelProtocol>)
        ensures
            is_member_protocol(self@, r),
    {
        let keys: Vec<u128> = table_keys(&self.members);
        if keys.len() == 0 {
            assert(self@.members.dom() =~= Set::empty());
            return None;
        }
        let id: u128 = keys[0];
        assert(self@.members.contains_key(keys@[0]@));
        table_view(
            &self.members,
            &id,
            |m: &GroupMember| -> (p: TunnelProtocol) ensures p == m@.info.protocol { m.info.protocol },
        )
    }

    /// The session that owns the member `id`.
    pub fn member_session(&self, id: &u128) -> (r: Option<u128>)
        ensures
            r == if self@.members.contains_key(*id) {
                Some(self@.members[*id].info.session_id)
            } else {
                None
            },
    {
        table_view(
            &self.members,
            id,
            |m: &GroupMember| -> (s: u128) ensures s == m@.info.session_id { m.info.session_id },
        )
    }

    /// What the member `id` has been registered as.
    pub fn member_info(&self, id: &u128) -> (r: Option<TunnelInfo>)
        ensures
            r is Some <==> self@.members.contains_key(*id),
            r matches Some(info) ==> info@ == self@.members[*id].info,
    {
        table_view(
            &self.members,
            id,
            |m: &GroupMember| -> (info: TunnelInfo) ensures info@ == m@.info { m.info.clone() },
        )
    }

    /// Adds a member.
    pub fn join(&mut self, member: GroupMember)
        ensures
            final(self)@ == group_joined(old(self)@, member@),
    {
        table_insert(&mut self.members, member.info.tunnel_id, member);
        assert(self@ =~= group_joined(old(self)@, member@));
    }

    /// Takes the member `id` out. Returns whether the group has none left.
    pub fn leave(&mut self, id: &u128) -> (empty: bool)
        ensures
            final(self)@ == group_left(old(self)@, *id),
            empty == (final(self)@.members.dom() =~= Set::empty()),
    {
        let _gone = table_remove(&mut self.members, id);
        assert(self@ =~= group_left(old(self)@, *id));
        let n: usize = table_len(&self.members);
        proof {
            if n == 0 {
                assert(self@.members.dom() =~= Set::empty());
            }
        }
        n == 0
    }

    /// A good report on the member `id`, which arms the alert again. Returns whether it
    /// turned healthy by it, or `None` where it is no member.
    pub fn report_healthy(&mut self, id: &u128, at: u64) -> (r: Option<bool>)
        ensures
            r is Some <==> old(self)@.members.contains_key(*id),
            r is None ==> final(self)@ == old(self)@,
            r matches Some(flipped) ==> final(self)@ == group_recovered(old(self)@, *id, at)
                && flipped == !old(self)@.members[*id].healthy,
    {
        match table_remove(&mut self.members, id) {
            Some(member) => {
                let mut m: GroupMember = member;
                let flipped: bool = m.mark_healthy(at);
                table_insert(&mut self.members, *id, m);
                self.zero_healthy_alerted = false;
                assert(self@ =~= group_recovered(old(self)@, *id, at));
                Some(flipped)
            },
            None => {
                assert(self@ =~= old(self)@);
                None
            },
        }
    }

    /// A bad report on the member `id`. Returns whether it turned unhealthy by it, or `None`
    /// where it is no member.
    pub fn report_unhealthy(&mut self, id: &u128, reason: &str, at: u64) -> (r: Option<bool>)
        ensures
            r is Some <==> old(self)@.members.contains_key(*id),
            r is None ==> final(self)@ == old(self)@,
            r matches Some(flipped) ==> final(self)@ == group_failed(
                old(self)@,
                *id,
                reason@,
                at,
            ) && flipped == old(self)@.members[*id].healthy,
    {
        match table_remove(&mut self.members, id) {
            Some(member) => {
                let mut m: GroupMember = member;
                let flipped: bool = m.mark_unhealthy(reason, at);
                table_insert(&mut self.members, *id, m);
                assert(self@ =~= group_failed(old(self)@, *id, reason@, at));
                Some(flipped)
            },
            None => {
                assert(self@ =~= old(self)@);
                None
            },
        }
    }

    /// Counts one more request on the member `id`, and returns what it is registered as.
    pub fn count_request(&mut self, id: &u128) -> (r: Option<TunnelInfo>)
        ensures
            r is Some <==> old(self)@.members.contains_key(*id),
            r is None ==> final(self)@ == old(self)@,
            r matches Some(info) ==> final(self)@ == group_dispatched(old(self)@, *id) && info@
                == final(self)@.members[*id].info,
    {
        match table_remove(&mut self.members, id) {
            Some(member) => {
                let mut m: GroupMember = member;
                m.info.request_count = m.info.request_count.wrapping_add(1);
                let info: TunnelInfo = m.info.clone();
                table_insert(&mut self.members, *id, m);
                assert(self@ =~= group_dispatched(old(self)@, *id));
                Some(info)
            },
            None => {
                assert(self@ =~= old(self)@);
                None
            },
        }
    }

    /// Adds `n` to the bytes that the member `id` carried. Returns whether it is a member.
    pub fn count_bytes(&mut self, id: &u128, n: u64) -> (r: bool)
        ensures
            r == old(self)@.members.contains_key(*id),
            final(self)@ == if r {
                group_proxied(old(self)@, *id, n)
            } else {
                old(self)@
            },
    {
        match table_remove(&mut self.members, id) {
            Some(member) => {
                let mut m: GroupMember = member;
                m.info.bytes_proxied = m.info.bytes_proxied.wrapping_add(n);
                table_insert(&mut self.members, *id, m);
                assert(self@ =~= group_proxied(old(self)@, *id, n));
                true
            },
            None => {
                assert(self@ =~= old(self)@);
                false
            },
        }
    }

    /// Marks the alert as sent if it is due. Returns whether it was.
    pub fn arm_alert(&mut self) -> (due: bool)
        ensures
            due == alert_due(old(self)@),
            final(self)@ == if due {
                GroupModel { zero_healthy_alerted: true, ..old(self)@ }
            } else {
                old(self)@
            },
    {
        if self.key_hash.is_none() || self.healthy_count() != 0 || self.zero_healthy_alerted {
            return false;
        }
        self.zero_healthy_alerted = true;
        true
    }

    /// Whether one member registered before another.
    fn registered_before(&self, a: &u128, b: &u128) -> (r: bool)
        requires
            self@.members.contains_key(*a),
            self@.members.contains_key(*b),
        ensures
            r == is_earlier(self@, *a, *b),
    {
        let ta: Option<u64> = table_view(
            &self.members,
            a,
            |m: &GroupMember| -> (t: u64) ensures t == m@.info.created_at { m.info.created_at },
        );
        let tb: Option<u64> = table_view(
            &self.members,
            b,
            |m: &GroupMember| -> (t: u64) ensures t == m@.info.created_at { m.info.created_at },
        );
        match (ta, tb) {
            (Some(x), Some(y)) => x < y || (x == y && *a < *b),
            _ => false,
        }
    }

    /// The members of the group, in the order in which they registered.
    pub fn members_by_registration(&self) -> (r: Vec<u128>)
        ensures
            lists_by_registration(r@, self@),
    {
        let keys: Vec<u128> = table_keys(&self.members);
        let mut out: Vec<u128> = Vec::new();
        let mut i: usize = 0;
        while i < keys.len()
            invariant
                i <= keys@.len(),
                lists_keys(keys@, self@.members),
                forall|x: int, y: int|
                    0 <= x < y < out@.len() ==> is_earlier(
                        self@,
                        #[trigger] out@[x],
                        #[trigger] out@[y],
                    ),
                forall|id: u128| #[trigger]
                    out@.contains(id) <==> exists|j: int| 0 <= j < i && #[trigger] keys@[j] == id,
                forall|id: u128| #[trigger] out@.contains(id) ==> self@.members.contains_key(id),
            decreases keys@.len() - i,
        {
            let id: u128 = keys[i];
            assert(self@.members.contains_key(keys@[i as int]@));
            assert(!out@.contains(id));
            assert forall|x: int| 0 <= x < out@.len() implies self@.members.contains_key(
                #[trigger] out@[x],
            ) by {
                assert(out@.contains(out@[x]));
            }
            let mut at: usize = 0;
            while at < out.len() && self.registered_before(&out[at], &id)
                invariant
                    at <= out@.len(),
                    self@.members.contains_key(id),
                    forall|x: int|
                        0 <= x < out@.len() ==> self@.members.contains_key(#[trigger] out@[x]),
                    forall|x: int|
                        0 <= x < at ==> is_earlier(self@, #[trigger] out@[x], id),
                decreases out@.len() - at,
            {
                at = at + 1;
            }
            let ghost before = out@;
            out.insert(at, id);
            proof {
                assert forall|x: int| at <= x < before.len() implies is_earlier(
                    self@,
                    id,
                    #[trigger] before[x],
                ) by {
                    assert(before.contains(before[x]));
                    assert(before.contains(before[at as int]));
                    assert(before[at as int] != id);
                    if x > at {
                        assert(is_earlier(self@, before[at as int], before[x]));
                    }
                }
                assert forall|x: int, y: int| 0 <= x < y < out@.len() implies is_earlier(
                    self@,
                    #[trigger] out@[x],
                    #[trigger] out@[y],
                ) by {
                    let bx = if x <= at {
                        x
                    } else {
                        x - 1
                    };
                    let by_ = if y <= at {
                        y
                    } else {
                        y - 1
                    };
                    if x != at && y != at {
                        assert(out@[x] == before[bx] && out@[y] == before[by_]);
                    } else if x == at {
                        assert(out@[y] == before[y - 1]);
                    } else {
                        assert(out@[x] == before[x]);
                    }
                }
                assert forall|k: u128| #[trigger]
                    out@.contains(k) <==> exists|j: int|
                        0 <= j < i + 1 && #[trigger] keys@[j] == k by {
                    if before.contains(k) {
                        let p = choose|p: int| 0 <= p < before.len() && before[p] == k;
                        assert(out@[if p < at {
                            p
                        } else {
                            p + 1
                        }] == k);
                    }
                    if out@.contains(k) && k != id {
                        let p = choose|p: int| 0 <= p < out@.len() && out@[p] == k;
                        assert(before[if p < at {
                            p
                        } else {
                            p - 1
                        }] == k);
                        assert(before.contains(k));
                    }
                    if k == id {
                        assert(out@[at as int] == k);
                        assert(keys@[i as int] == k);
                    }
                    if exists|j: int| 0 <= j < i + 1 && #[trigger] keys@[j] == k {
                        let j = choose|j: int| 0 <= j < i + 1 && #[trigger] keys@[j] == k;
                        if j < i {
                            assert(before.contains(k));
                        }
                    }
                }
                assert forall|k: u128| #[trigger] out@.contains(k) implies self@.members.contains_key(
                    k,
                ) by {
                    let j = choose|j: int| 0 <= j < i + 1 && #[trigger] keys@[j] == k;
                    assert(self@.members.contains_key(keys@[j]@));
                }
            }
            i = i + 1;
        }
        proof {
            assert forall|id: u128| #[trigger] out@.contains(id) <==> self@.members.contains_key(
                id,
            ) by {
                if self@.members.contains_key(id) {
                    let k = choose|k: int| 0 <= k < keys@.len() && (#[trigger] keys@[k])@ == id;
                    assert(keys@[k] == id);
                }
            }
        }
        out
    }

    /// The addresses where the members' tenants want to hear that the group is down, each
    /// once, in the order in which members first gave them.
    pub fn alert_urls(&self) -> (r: Vec<String>)
        ensures
            lists_alert_urls(texts(r@), self@),
    {
        let ids: Vec<u128> = self.members_by_registration();
        let mut out: Vec<String> = Vec::new();
        let ghost mut firsts: Seq<int> = Seq::empty();
        let mut i: usize = 0;
        while i < ids.len()
            invariant
                i <= ids@.len(),
                lists_by_registration(ids@, self@),
                texts(out@).no_duplicates(),
                firsts.len() == out@.len(),
                forall|k: int|
                    0 <= k < firsts.len() ==> 0 <= #[trigger] firsts[k] < i && alert_url(
                        self@.members[ids@[firsts[k]]],
                    ) == Some(texts(out@)[k]),
                forall|k: int, l: int|
                    0 <= k < l < firsts.len() ==> #[trigger] firsts[k] < #[trigger] firsts[l],
                forall|k: int, j: int|
                    0 <= k < firsts.len() && 0 <= j < #[trigger] firsts[k] ==> alert_url(
                        self@.members[#[trigger] ids@[j]],
                    ) != Some(texts(out@)[k]),
                forall|j: int|
                    0 <= j < i ==> match alert_url(self@.members[#[trigger] ids@[j]]) {
                        Some(url) => texts(out@).contains(url),
                        None => true,
                    },
            decreases ids@.len() - i,
        {
            let id: u128 = ids[i];
            assert(ids@.contains(id));
            let found: Option<Option<String>> = table_view(
                &self.members,
                &id,
                |m: &GroupMember| -> (u: Option<String>) ensures opt_text(u) == alert_url(m@) { m.alert_webhook_url() },
            );
            let ghost before = texts(out@);
            match found {
                Some(Some(url)) => {
                    assert(alert_url(self@.members[id]) == Some(url@));
                    if !texts_contain(&out, url.as_str()) {
                        let ghost new_url = url@;
                        out.push(url);
                        assert(texts(out@) =~= before.push(new_url));
                        proof {
                            let old_firsts = firsts;
                            firsts = firsts.push(i as int);
                            assert forall|k: int, j: int|
                                0 <= k < firsts.len() && 0 <= j < #[trigger] firsts[k] implies alert_url(
                                self@.members[#[trigger] ids@[j]],
                            ) != Some(texts(out@)[k]) by {
                                if k < old_firsts.len() {
                                    assert(old_firsts[k] == firsts[k]);
                                } else if alert_url(self@.members[ids@[j]]) == Some(new_url) {
                                    assert(before.contains(new_url));
                                }
                            }
                            assert forall|k: int| 0 <= k < firsts.len() implies 0
                                <= #[trigger] firsts[k] < i + 1 && alert_url(
                                self@.members[ids@[firsts[k]]],
                            ) == Some(texts(out@)[k]) by {
                                if k < old_firsts.len() {
                                    assert(old_firsts[k] == firsts[k]);
                                }
                            }
                            assert forall|k: int, l: int| 0 <= k < l < firsts.len() implies
                                #[trigger] firsts[k] < #[trigger] firsts[l] by {
                                assert(old_firsts[k] == firsts[k]);
                                if l < old_firsts.len() {
                                    assert(old_firsts[l] == firsts[l]);
                                }
                            }
                        }
                    }
                    assert(texts(out@).contains(url@)) by {
                        if !before.contains(url@) {
                            assert(texts(out@)[before.len() as int] == url@);
                        }
                    }
                },
                _ => {
                    assert(alert_url(self@.members[id]) is None);
                },
            }
            assert forall|j: int| 0 <= j < i + 1 implies match alert_url(
                self@.members[#[trigger] ids@[j]],
            ) {
                Some(url) => texts(out@).contains(url),
                None => true,
            } by {
                if let Some(url) = alert_url(self@.members[ids@[j]]) {
                    if j < i {
                        let k = choose|k: int| 0 <= k < before.len() && before[k] == url;
                        assert(texts(out@)[k] == url);
                    }
                }
            }
            i = i + 1;
        }
        proof {
            lemma_firsts_in_order(ids@, firsts, texts(out@), self@);
        }
        out
    }
}

/// Addresses that are listed as the members come by, in the order in which these registered,
/// are listed as they should be.
proof fn lemma_firsts_in_order(
    ids: Seq<u128>,
    firsts: Seq<int>,
    urls: Seq<Seq<char>>,
    g: GroupModel,
)
    requires
        lists_by_registration(ids, g),
        urls.no_duplicates(),
        firsts.len() == urls.len(),
        forall|k: int|
            0 <= k < firsts.len() ==> 0 <= #[trigger] firsts[k] < ids.len() && alert_url(
                g.members[ids[firsts[k]]],
            ) == Some(urls[k]),
        forall|k: int, l: int|
            0 <= k < l < firsts.len() ==> #[trigger] firsts[k] < #[trigger] firsts[l],
        forall|k: int, j: int|
            0 <= k < firsts.len() && 0 <= j < #[trigger] firsts[k] ==> alert_url(
                g.members[#[trigger] ids[j]],
            ) != Some(urls[k]),
        forall|j: int|
            0 <= j < ids.len() ==> match alert_url(g.members[#[trigger] ids[j]]) {
                Some(url) => urls.contains(url),
                None => true,
            },
    ensures
        lists_alert_urls(urls, g),
{
    assert forall|url: Seq<char>| #[trigger] urls.contains(url) <==> is_alert_url(g, url) by {
        if urls.contains(url) {
            let k = choose|k: int| 0 <= k < urls.len() && urls[k] == url;
            assert(0 <= firsts[k] < ids.len());
            assert(ids.contains(ids[firsts[k]]));
        }
        if is_alert_url(g, url) {
            let id = choose|id: u128| #[trigger]
                g.members.contains_key(id) && alert_url(g.members[id]) == Some(url);
            assert(ids.contains(id));
            let j = choose|j: int| 0 <= j < ids.len() && ids[j] == id;
            assert(alert_url(g.members[ids[j]]) == Some(url));
        }
    }
    assert forall|k: int, a: u128| 0 <= k < urls.len() && #[trigger] is_first_at(
        g,
        urls[k],
        a,
    ) implies a == ids[firsts[k]] by {
        let f = firsts[k];
        assert(ids.contains(ids[f]));
        assert(ids.contains(a));
        let p = choose|p: int| 0 <= p < ids.len() && ids[p] == a;
        if p < f {
            assert(alert_url(g.members[ids[p]]) != Some(urls[k]));
        }
        if p > f {
            assert(is_earlier(g, ids[f], ids[p]));
        }
    }
    assert forall|i: int, j: int, a: u128, b: u128|
        0 <= i < j < urls.len() && #[trigger] is_first_at(g, urls[i], a)
            && #[trigger] is_first_at(g, urls[j], b) implies is_earlier(g, a, b) by {
        assert(firsts[i] < firsts[j]);
        assert(is_earlier(g, ids[firsts[i]], ids[firsts[j]]));
    }
}

// ── asking for a group ───────────────────────────────────────────────────────

/// What a client asks for when it opens or joins a pool.
#[derive(Debug)]
pub struct GroupSpec {
    /// Names the pool when this member opens it.
    pub group_name: String,
    /// The hash of the key that every member of the pool must show.
    pub key_hash: String,
    pub health_check: Option<HealthCheckSpec>,
}

/// The view of a [`GroupSpec`].
#[verifier::ext_equal]
pub struct GroupSpecModel {
    pub group_name: Seq<char>,
    pub key_hash: Seq<char>,
    pub health_check: Option<HealthSpecModel>,
}

impl View for GroupSpec {
    type V = GroupSpecModel;

    open spec fn view(&self) -> GroupSpecModel {
        GroupSpecModel {
            group_name: self.group_name@,
            key_hash: self.key_hash@,
            health_check: opt_health(self.health_check),
        }
    }
}

/// The view of an optional [`GroupSpec`].
pub open spec fn opt_group(g: Option<GroupSpec>) -> Option<GroupSpecModel> {
    match g {
        Some(s) => Some(s@),
        None => None,
    }
}

// ── what is told about a group ───────────────────────────────────────────────

/// What the alert "no healthy member left" says.
#[derive(Debug)]
pub struct GroupAlertPayload {
    pub region_id: String,
    pub protocol: String,
    pub label: String,
    pub group_name: String,
    pub key_hash_short: String,
    pub member_count: usize,
}

/// The view of a [`GroupAlertPayload`].
#[verifier::ext_equal]
pub struct AlertPayloadModel {
    pub region_id: Seq<char>,
    pub protocol: Seq<char>,
    pub label: Seq<char>,
    pub group_name: Seq<char>,
    pub key_hash_short: Seq<char>,
    pub member_count: nat,
}

impl View for GroupAlertPayload {
    type V = AlertPayloadModel;

    open spec fn view(&self) -> AlertPayloadModel {
        AlertPayloadModel {
            region_id: self.region_id@,
            protocol: self.protocol@,
            label: self.label@,
            group_name: self.group_name@,
            key_hash_short: self.key_hash_short@,
            member_count: self.member_count as nat,
        }
    }
}

/// An alert, and the addresses of the tenants that want it.
#[derive(Debug)]
pub struct ZeroHealthyAlert {
    pub payload: GroupAlertPayload,
    /// Each address once.
    pub tenant_webhook_urls: Vec<String>,
}

/// One health transition, as subscribers of a group's live stream see it.
#[derive(Debug)]
pub struct GroupEvent {
    /// `http`, `tcp` or `udp`.
    pub protocol: String,
    /// The subdomain, or the port in decimal.
    pub label: String,
    pub tunnel_id: u128,
    pub healthy: bool,
    pub reason: String,
    /// How many members are healthy after the transition.
    pub healthy_count: usize,
    pub member_count: usize,
}

/// The view of a [`GroupEvent`].
#[verifier::ext_equal]
pub struct GroupEventModel {
    pub protocol: Seq<char>,
    pub label: Seq<char>,
    pub tunnel_id: u128,
    pub healthy: bool,
    pub reason: Seq<char>,
    pub healthy_count: nat,
    pub member_count: nat,
}

impl View for GroupEvent {
    type V = GroupEventModel;

    open spec fn view(&self) -> GroupEventModel {
        GroupEventModel {
            protocol: self.protocol@,
            label: self.label@,
            tunnel_id: self.tunnel_id,
            healthy: self.healthy,
            reason: self.reason@,
            healthy_count: self.healthy_count as nat,
            member_count: self.member_count as nat,
        }
    }
}

/// The views of a list of events, in order.
pub open spec fn group_events(list: Seq<GroupEvent>) -> Seq<GroupEventModel> {
    list.map_values(|e: GroupEvent| e@)
}

} // verus!
