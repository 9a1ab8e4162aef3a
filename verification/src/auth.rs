//! Checking secrets, and throttling those who guess them.
use crate::address::{ip_of, is_loopback, read_address, trimmed, IpAddr};
use crate::clock::{clock_origin, nanos_since};
use crate::digest::{same_bytes, sha256, sha256_of};
use crate::table::{table_insert, table_len, table_remove, table_retain, Contents};
use dashmap::DashMap;
use std::collections::VecDeque;
use vstd::prelude::*;
use vstd::utf8::encode_utf8;

verus! {

/// Whether two secrets are the same, as far as their digests tell.
pub open spec fn same_secret(a: Seq<char>, b: Seq<char>) -> bool {
    sha256(encode_utf8(a)) == sha256(encode_utf8(b))
}

/// Whether two secrets have the same digest, in a time that does not depend on either.
/// Equal secrets always do; that different ones never do rests on the digest alone.
pub fn secret_eq(a: &str, b: &str) -> (r: bool)
    ensures
        r == same_secret(a@, b@),
        a@ == b@ ==> r,
{
    let ha: Vec<u8> = sha256_of(a.as_bytes());
    let hb: Vec<u8> = sha256_of(b.as_bytes());
    same_bytes(ha.as_slice(), hb.as_slice())
}

/// From how many addresses on the limiter looks for idle ones.
pub const SWEEP_THRESHOLD: usize = 10_000;

/// What a limiter files an address under: its family and its bits.
pub open spec fn ip_key(ip: IpAddr) -> (u8, u128) {
    match ip {
        IpAddr::V4(bits) => (4, bits as u128),
        IpAddr::V6(bits) => (6, bits),
    }
}

impl IpAddr {
    /// What a limiter files the address under.
    fn key(&self) -> (r: (u8, u128))
        ensures
            r == ip_key(*self),
    {
        match self {
            IpAddr::V4(bits) => (4, *bits as u128),
            IpAddr::V6(bits) => (6, *bits),
        }
    }
}

/// The address of a client of the dashboard: what the proxy in front says, if it says an
/// address and runs on this machine, and else the address of the connection.
pub open spec fn client_of(peer: IpAddr, real_ip: Option<Seq<char>>) -> IpAddr {
    if is_loopback(peer) && real_ip is Some && ip_of(trimmed(real_ip->0)) is Some {
        ip_of(trimmed(real_ip->0))->0
    } else {
        peer
    }
}

/// The address of a client of the dashboard. `real_ip_header` is what the proxy in front says;
/// it counts only when the proxy runs on this machine.
pub fn client_ip(peer: IpAddr, real_ip_header: Option<&str>) -> (r: IpAddr)
    ensures
        r == client_of(
            peer,
            match real_ip_header {
                Some(v) => Some(v@),
                None => None,
            },
        ),
{
    if !peer.is_loopback() {
        return peer;
    }
    match real_ip_header {
        Some(v) => match read_address(v) {
            Some(ip) => ip,
            None => peer,
        },
        None => peer,
    }
}

// ── the limiter ──────────────────────────────────────────────────────────────

/// What a table of failures holds: when the attempts from each address failed.
pub uninterp spec fn failure_table(m: DashMap<(u8, u128), VecDeque<u64>>) -> Map<
    (u8, u128),
    Seq<u64>,
>;

impl Contents<(u8, u128), Seq<u64>> for DashMap<(u8, u128), VecDeque<u64>> {
    open spec fn contents(&self) -> Map<(u8, u128), Seq<u64>> {
        failure_table(*self)
    }
}

/// `DashMap::new`: a table without failures.
#[verifier::external_body]
fn new_failure_table() -> (r: DashMap<(u8, u128), VecDeque<u64>>)
    ensures
        failure_table(r) =~= Map::empty(),
{
    DashMap::new()
}

/// A sliding-window limiter on failed attempts, for each source address.
///
/// Attempts that succeed never count. A budget of 0 turns the limiter off.
pub struct AuthFailureLimiter {
    /// When the attempts from each address failed, oldest first: nanoseconds since `started`.
    pub failures: DashMap<(u8, u128), VecDeque<u64>>,
    /// How long a failure counts, in nanoseconds.
    pub window: u64,
    /// How many failures within the window are too many.
    pub max_failures: usize,
    /// Where the limiter's clock starts.
    pub started: std::time::Instant,
}

/// The view of an [`AuthFailureLimiter`].
#[verifier::ext_equal]
pub struct LimiterModel {
    pub failures: Map<(u8, u128), Seq<u64>>,
    pub window: u64,
    pub max_failures: usize,
}

impl View for AuthFailureLimiter {
    type V = LimiterModel;

    open spec fn view(&self) -> LimiterModel {
        LimiterModel {
            failures: failure_table(self.failures),
            window: self.window,
            max_failures: self.max_failures,
        }
    }
}

/// A limiter without failures on file, that allows so many within a window.
pub open spec fn new_limiter(max_failures: u32, window: u64) -> LimiterModel {
    LimiterModel { failures: Map::empty(), window, max_failures: max_failures as usize }
}

/// A limiter that allows so many failures a minute.
pub open spec fn minute_limiter(max_failures: u32) -> LimiterModel {
    new_limiter(max_failures, 60_000_000_000)
}

/// Whether a failure at `t` no longer counts at `now`.
pub open spec fn is_stale(t: u64, now: u64, window: u64) -> bool {
    t + window < now
}

/// `times` without the stale ones in front.
pub open spec fn pruned(times: Seq<u64>, now: u64, window: u64) -> Seq<u64>
    decreases times.len(),
{
    if times.len() > 0 && is_stale(times[0], now, window) {
        pruned(times.drop_first(), now, window)
    } else {
        times
    }
}

/// The failures of an address; none where nothing is filed.
pub open spec fn failures_of(l: LimiterModel, ip: IpAddr) -> Seq<u64> {
    if l.failures.contains_key(ip_key(ip)) {
        l.failures[ip_key(ip)]
    } else {
        Seq::empty()
    }
}

/// Whether an address has used its budget up at `now`.
pub open spec fn limited(l: LimiterModel, ip: IpAddr, now: u64) -> bool {
    l.max_failures > 0 && pruned(failures_of(l, ip), now, l.window).len() >= l.max_failures
}

/// `l` once it was asked about an address at `now`, whose stale failures go.
pub open spec fn failures_asked(l: LimiterModel, ip: IpAddr, now: u64) -> LimiterModel {
    if l.max_failures > 0 && l.failures.contains_key(ip_key(ip)) {
        LimiterModel {
            failures: l.failures.insert(
                ip_key(ip),
                pruned(l.failures[ip_key(ip)], now, l.window),
            ),
            ..l
        }
    } else {
        l
    }
}

/// Whether the latest of `times` still counts at `now`.
pub open spec fn is_active(times: Seq<u64>, now: u64, window: u64) -> bool {
    times.len() > 0 && !is_stale(times.last(), now, window)
}

/// `l` without the addresses whose latest failure is stale at `now`.
pub open spec fn idle_evicted(l: LimiterModel, now: u64) -> LimiterModel {
    LimiterModel {
        failures: Map::new(
            |k: (u8, u128)| l.failures.contains_key(k) && is_active(l.failures[k], now, l.window),
            |k: (u8, u128)| l.failures[k],
        ),
        ..l
    }
}

/// `l` with one more failure of an address filed.
pub open spec fn failure_filed(l: LimiterModel, ip: IpAddr, now: u64) -> LimiterModel {
    LimiterModel {
        failures: l.failures.insert(
            ip_key(ip),
            pruned(failures_of(l, ip), now, l.window).push(now),
        ),
        ..l
    }
}

/// `l` after a failed attempt at `now`. With too many addresses on file, the idle ones go, by
/// the clock as it stands then.
pub open spec fn failure_recorded(l: LimiterModel, ip: IpAddr, now: u64, later: u64) -> LimiterModel {
    if l.max_failures == 0 {
        l
    } else {
        let l1 = failure_filed(l, ip, now);
        if l1.failures.dom().len() > SWEEP_THRESHOLD {
            idle_evicted(l1, later)
        } else {
            l1
        }
    }
}

/// Whether a failure at `t` no longer counts at `now`.
fn stale(t: u64, now: u64, window: u64) -> (r: bool)
    ensures
        r == is_stale(t, now, window),
{
    now >= window && t < now - window
}

/// Drops the stale failures in front.
pub fn prune(deque: &mut VecDeque<u64>, now: u64, window: u64)
    ensures
        final(deque)@ == pruned(old(deque)@, now, window),
{
    while deque.len() > 0 && stale(deque[0], now, window)
        invariant
            pruned(deque@, now, window) == pruned(old(deque)@, now, window),
        decreases deque@.len(),
    {
        let ghost before = deque@;
        let _gone = deque.pop_front();
        assert(deque@ =~= before.drop_first());
    }
}

impl AuthFailureLimiter {
    /// Allows this many failed attempts a minute for each address.
    pub fn new(max_failures_per_minute: u32) -> (r: Self)
        ensures
            r@ == new_limiter(max_failures_per_minute, 60_000_000_000),
            r@ == minute_limiter(max_failures_per_minute),
    {
        Self::with_window(max_failures_per_minute, 60_000_000_000)
    }

    /// Allows this many failed attempts for each address within `window` nanoseconds.
    pub fn with_window(max_failures: u32, window: u64) -> (r: Self)
        ensures
            r@ == new_limiter(max_failures, window),
    {
        AuthFailureLimiter {
            failures: new_failure_table(),
            window,
            max_failures: max_failures as usize,
            started: clock_origin(),
        }
    }

    /// Whether there is a budget at all.
    pub fn is_enabled(&self) -> (r: bool)
        ensures
            r == (self@.max_failures > 0),
    {
        self.max_failures > 0
    }

    /// Whether an address has used its budget up at `now`. Drops its stale failures.
    pub fn is_limited_at(&mut self, ip: IpAddr, now: u64) -> (r: bool)
        ensures
            r == limited(old(self)@, ip, now),
            final(self)@ == failures_asked(old(self)@, ip, now),
    {
        if !self.is_enabled() {
            return false;
        }
        let key: (u8, u128) = ip.key();
        match table_remove(&mut self.failures, &key) {
            Some(found) => {
                let mut times: VecDeque<u64> = found;
                prune(&mut times, now, self.window);
                let over: bool = times.len() >= self.max_failures;
                table_insert(&mut self.failures, key, times);
                assert(self@.failures =~= failures_asked(old(self)@, ip, now).failures);
                over
            },
            None => {
                assert(self@ =~= old(self)@);
                false
            },
        }
    }

    /// Whether an address has used its budget up by now.
    pub fn is_limited(&mut self, ip: IpAddr) -> (r: bool)
        ensures
            exists|now: u64|
                r == #[trigger] limited(old(self)@, ip, now) && final(self)@ == failures_asked(
                    old(self)@,
                    ip,
                    now,
                ),
    {
        let now: u64 = nanos_since(&self.started);
        let r: bool = self.is_limited_at(ip, now);
        assert(r == limited(old(self)@, ip, now));
        r
    }

    /// Files a failed attempt from an address at `now`; `later` is the clock when it comes to
    /// sweeping.
    pub fn record_failure_at(&mut self, ip: IpAddr, now: u64, later: u64)
        ensures
            final(self)@ == failure_recorded(old(self)@, ip, now, later),
    {
        if !self.is_enabled() {
            return;
        }
        let key: (u8, u128) = ip.key();
        let mut times: VecDeque<u64> = match table_remove(&mut self.failures, &key) {
            Some(found) => found,
            None => VecDeque::new(),
        };
        assert(times@ =~= failures_of(old(self)@, ip));
        prune(&mut times, now, self.window);
        times.push_back(now);
        table_insert(&mut self.failures, key, times);
        assert(self@ =~= failure_filed(old(self)@, ip, now));
        if table_len(&self.failures) > SWEEP_THRESHOLD {
            self.evict_idle_at(later);
        }
    }

    /// Files a failed attempt from an address.
    pub fn record_failure(&mut self, ip: IpAddr)
        ensures
            exists|now: u64, later: u64|
                final(self)@ == #[trigger] failure_recorded(old(self)@, ip, now, later),
    {
        let now: u64 = nanos_since(&self.started);
        let later: u64 = nanos_since(&self.started);
        self.record_failure_at(ip, now, later);
    }

    /// Forgets the addresses whose latest failure no longer counts at `now`.
    pub fn evict_idle_at(&mut self, now: u64)
        ensures
            final(self)@ == idle_evicted(old(self)@, now),
    {
        let window: u64 = self.window;
        let keep = |times: &VecDeque<u64>| -> (k: bool)
            ensures
                k == is_active(times@, now, window),
            {
                let n: usize = times.len();
                n > 0 && !stale(times[n - 1], now, window)
            };
        table_retain(&mut self.failures, keep);
        assert(self@.failures =~= idle_evicted(old(self)@, now).failures);
    }

    /// Forgets the addresses whose latest failure no longer counts.
    pub fn evict_idle(&mut self)
        ensures
            exists|now: u64| final(self)@ == #[trigger] idle_evicted(old(self)@, now),
    {
        let now: u64 = nanos_since(&self.started);
        self.evict_idle_at(now);
    }
}

// ── laws ─────────────────────────────────────────────────────────────────────

/// Whether times never run backwards.
pub open spec fn ascending(times: Seq<u64>) -> bool {
    forall|i: int, j: int| 0 <= i <= j < times.len() ==> times[i] <= times[j]
}

/// Whether the failures of every address are filed in the order of time.
pub open spec fn in_order(l: LimiterModel) -> bool {
    forall|k: (u8, u128)| #[trigger] l.failures.contains_key(k) ==> ascending(l.failures[k])
}

/// Of failures in the order of time, pruning keeps exactly those that still count.
pub proof fn law_prune_keeps_what_counts(times: Seq<u64>, now: u64, window: u64)
    requires
        ascending(times),
    ensures
        pruned(times, now, window) == times.filter(|t: u64| !is_stale(t, now, window)),
        ascending(pruned(times, now, window)),
    decreases times.len(),
{
    let counts = |t: u64| !is_stale(t, now, window);
    if times.len() == 0 {
        assert(times.filter(counts) =~= times) by {
            reveal(Seq::filter);
        }
    } else if is_stale(times[0], now, window) {
        let rest = times.drop_first();
        assert(ascending(rest));
        law_prune_keeps_what_counts(rest, now, window);
        assert(times =~= seq![times[0]] + rest);
        rest.lemma_filter_prepend(times[0], counts);
        assert(times.filter(counts) =~= rest.filter(counts));
    } else {
        assert forall|i: int| 0 <= i < times.len() implies counts(#[trigger] times[i]) by {
            assert(times[0] <= times[i]);
        }
        lemma_filter_all(times, counts);
    }
}

/// A filter that everything passes keeps everything.
proof fn lemma_filter_all(times: Seq<u64>, counts: spec_fn(u64) -> bool)
    requires
        forall|i: int| 0 <= i < times.len() ==> counts(#[trigger] times[i]),
    ensures
        times.filter(counts) == times,
    decreases times.len(),
{
    reveal(Seq::filter);
    if times.len() > 0 {
        lemma_filter_all(times.drop_last(), counts);
        assert(times =~= times.drop_last().push(times.last()));
    }
}

/// A limiter without a budget limits nobody and files nothing.
pub proof fn law_no_budget_no_limit(l: LimiterModel, ip: IpAddr, now: u64, later: u64)
    requires
        l.max_failures == 0,
    ensures
        !limited(l, ip, now),
        failure_recorded(l, ip, now, later) == l,
{
}

/// With failures in the order of time, an address is limited exactly if as many of its
/// failures still count as the budget allows.
pub proof fn law_limited_by_count(l: LimiterModel, ip: IpAddr, now: u64)
    requires
        in_order(l),
    ensures
        limited(l, ip, now) <==> l.max_failures > 0 && failures_of(l, ip).filter(
            |t: u64| !is_stale(t, now, l.window),
        ).len() >= l.max_failures,
{
    law_prune_keeps_what_counts(failures_of(l, ip), now, l.window);
}

/// Once the window has passed without a failure, an address is not limited.
pub proof fn law_window_forgives(l: LimiterModel, ip: IpAddr, now: u64)
    requires
        forall|i: int|
            0 <= i < failures_of(l, ip).len() ==> is_stale(
                #[trigger] failures_of(l, ip)[i],
                now,
                l.window,
            ),
    ensures
        !limited(l, ip, now),
{
    lemma_all_stale(failures_of(l, ip), now, l.window);
}

/// Nothing is left of failures that are all stale.
proof fn lemma_all_stale(times: Seq<u64>, now: u64, window: u64)
    requires
        forall|i: int| 0 <= i < times.len() ==> is_stale(#[trigger] times[i], now, window),
    ensures
        pruned(times, now, window).len() == 0,
    decreases times.len(),
{
    if times.len() > 0 {
        assert(is_stale(times[0], now, window));
        let rest = times.drop_first();
        assert forall|i: int| 0 <= i < rest.len() implies is_stale(
            #[trigger] rest[i],
            now,
            window,
        ) by {
            assert(rest[i] == times[i + 1]);
        }
        lemma_all_stale(rest, now, window);
    }
}

/// Pruning brings no later time in.
proof fn lemma_pruned_below(times: Seq<u64>, now: u64, window: u64)
    requires
        forall|i: int| 0 <= i < times.len() ==> (#[trigger] times[i]) <= now,
    ensures
        forall|i: int|
            0 <= i < pruned(times, now, window).len() ==> (#[trigger] pruned(times, now, window)[i])
                <= now,
    decreases times.len(),
{
    if times.len() > 0 && is_stale(times[0], now, window) {
        let rest = times.drop_first();
        assert forall|i: int| 0 <= i < rest.len() implies (#[trigger] rest[i]) <= now by {
            assert(times[i + 1] <= now);
        }
        lemma_pruned_below(rest, now, window);
        assert(pruned(times, now, window) == pruned(rest, now, window));
    } else {
        assert(pruned(times, now, window) == times);
    }
}

/// While the clock does not run backwards, failures stay filed in the order of time.
pub proof fn law_recording_keeps_order(l: LimiterModel, ip: IpAddr, now: u64, later: u64)
    requires
        in_order(l),
        forall|i: int| 0 <= i < failures_of(l, ip).len() ==> (#[trigger] failures_of(l, ip)[i]) <= now,
    ensures
        in_order(failure_recorded(l, ip, now, later)),
{
    let times = failures_of(l, ip);
    law_prune_keeps_what_counts(times, now, l.window);
    lemma_pruned_below(times, now, l.window);
    assert(ascending(pruned(times, now, l.window).push(now)));
}

/// The failures of one address never count against another.
pub proof fn law_addresses_are_independent(
    l: LimiterModel,
    ip: IpAddr,
    other: IpAddr,
    now: u64,
    later: u64,
    at: u64,
)
    requires
        in_order(l),
        ip != other,
        later <= at,
    ensures
        limited(failure_recorded(l, ip, now, later), other, at) == limited(l, other, at),
{
    let l1 = failure_filed(l, ip, now);
    assert(ip_key(ip) != ip_key(other));
    assert(failures_of(l1, other) == failures_of(l, other));
    let times = failures_of(l, other);
    if l.max_failures > 0 && l1.failures.dom().len() > SWEEP_THRESHOLD && times.len() > 0
        && !is_active(times, later, l.window) {
        assert forall|i: int| 0 <= i < times.len() implies is_stale(
            #[trigger] times[i],
            at,
            l.window,
        ) by {
            assert(times[i] <= times[times.len() - 1]);
        }
        lemma_all_stale(times, at, l.window);
    }
}

// ── histories ────────────────────────────────────────────────────────────────

/// Something that is done to a limiter, with what its clock reads: a failed attempt is filed,
/// an address is asked about, or the idle addresses are swept out.
pub enum LimiterOp {
    Fail { ip: IpAddr, now: u64, later: u64 },
    Ask { ip: IpAddr, now: u64 },
    Sweep { now: u64 },
}

/// What a limiter is after one thing was done to it.
pub open spec fn limiter_stepped(l: LimiterModel, op: LimiterOp) -> LimiterModel {
    match op {
        LimiterOp::Fail { ip, now, later } => failure_recorded(l, ip, now, later),
        LimiterOp::Ask { ip, now } => failures_asked(l, ip, now),
        LimiterOp::Sweep { now } => idle_evicted(l, now),
    }
}

/// What a limiter is after a history, the oldest first.
pub open spec fn limiter_after(l: LimiterModel, ops: Seq<LimiterOp>) -> LimiterModel
    decreases ops.len(),
{
    if ops.len() == 0 {
        l
    } else {
        limiter_stepped(limiter_after(l, ops.drop_last()), ops.last())
    }
}

/// The clock when something begins.
pub open spec fn op_start(op: LimiterOp) -> u64 {
    match op {
        LimiterOp::Fail { now, .. } => now,
        LimiterOp::Ask { now, .. } => now,
        LimiterOp::Sweep { now } => now,
    }
}

/// The clock when it ends.
pub open spec fn op_end(op: LimiterOp) -> u64 {
    match op {
        LimiterOp::Fail { later, .. } => later,
        LimiterOp::Ask { now, .. } => now,
        LimiterOp::Sweep { now } => now,
    }
}

/// Whether the clock never runs backwards in a history, and stands at `clock` or earlier when
/// it ends.
pub open spec fn runs_forward(ops: Seq<LimiterOp>, clock: u64) -> bool
    decreases ops.len(),
{
    ops.len() > 0 ==> {
        &&& op_start(ops.last()) <= op_end(ops.last()) <= clock
        &&& runs_forward(ops.drop_last(), op_start(ops.last()))
    }
}

/// How many attempts from an address failed in a history, of those that still count at `now`.
pub open spec fn failed_recently(ops: Seq<LimiterOp>, ip: IpAddr, now: u64, window: u64) -> nat
    decreases ops.len(),
{
    if ops.len() == 0 {
        0
    } else {
        failed_recently(ops.drop_last(), ip, now, window) + match ops.last() {
            LimiterOp::Fail { ip: from, now: t, .. } => if from == ip && !is_stale(
                t,
                now,
                window,
            ) {
                1nat
            } else {
                0
            },
            _ => 0,
        }
    }
}

/// Whether what a limiter has on file for an address counts as the history does, from `clock`
/// on.
spec fn files_history(l: LimiterModel, ops: Seq<LimiterOp>, ip: IpAddr, clock: u64) -> bool {
    let times = failures_of(l, ip);
    &&& ascending(times)
    &&& forall|i: int| 0 <= i < times.len() ==> (#[trigger] times[i]) <= clock
    &&& forall|at: u64|
        at >= clock ==> (#[trigger] pruned(times, at, l.window)).len() == failed_recently(
            ops,
            ip,
            at,
            l.window,
        )
}

/// To prune twice is to prune at the later time.
proof fn lemma_pruned_twice(times: Seq<u64>, now: u64, at: u64, window: u64)
    requires
        now <= at,
    ensures
        pruned(pruned(times, now, window), at, window) == pruned(times, at, window),
    decreases times.len(),
{
    if times.len() > 0 && is_stale(times[0], now, window) {
        lemma_pruned_twice(times.drop_first(), now, at, window);
    }
}

/// One more failure at the end counts for one, while it counts.
proof fn lemma_pruned_push(times: Seq<u64>, t: u64, at: u64, window: u64)
    requires
        ascending(times),
        forall|i: int| 0 <= i < times.len() ==> (#[trigger] times[i]) <= t,
    ensures
        pruned(times.push(t), at, window).len() == pruned(times, at, window).len() + if is_stale(
            t,
            at,
            window,
        ) {
            0int
        } else {
            1
        },
    decreases times.len(),
{
    let more = times.push(t);
    if is_stale(t, at, window) {
        assert forall|i: int| 0 <= i < more.len() implies is_stale(
            #[trigger] more[i],
            at,
            window,
        ) by {
            if i < times.len() {
                assert(times[i] <= t);
            }
        }
        lemma_all_stale(more, at, window);
        assert forall|i: int| 0 <= i < times.len() implies is_stale(
            #[trigger] times[i],
            at,
            window,
        ) by {
            assert(times[i] == more[i]);
        }
        lemma_all_stale(times, at, window);
    } else if times.len() == 0 {
        assert(more[0] == t);
    } else {
        assert(more[0] == times[0]);
        if is_stale(times[0], at, window) {
            let rest = times.drop_first();
            assert forall|i: int| 0 <= i < rest.len() implies (#[trigger] rest[i]) <= t by {
                assert(rest[i] == times[i + 1]);
            }
            assert(more.drop_first() =~= rest.push(t));
            lemma_pruned_push(rest, t, at, window);
        }
    }
}

/// Sweeping the idle addresses out changes no count.
proof fn lemma_sweep_files_history(
    l: LimiterModel,
    ops: Seq<LimiterOp>,
    ip: IpAddr,
    clock: u64,
    now: u64,
)
    requires
        files_history(l, ops, ip, clock),
        clock <= now,
    ensures
        files_history(idle_evicted(l, now), ops, ip, now),
{
    let times = failures_of(l, ip);
    let l1 = idle_evicted(l, now);
    if !is_active(times, now, l.window) {
        assert(failures_of(l1, ip) =~= Seq::empty());
        assert forall|at: u64| at >= now implies (#[trigger] pruned(
            failures_of(l1, ip),
            at,
            l.window,
        )).len() == failed_recently(ops, ip, at, l.window) by {
            assert forall|i: int| 0 <= i < times.len() implies is_stale(
                #[trigger] times[i],
                at,
                l.window,
            ) by {
                assert(times[i] <= times[times.len() - 1]);
            }
            lemma_all_stale(times, at, l.window);
            assert(pruned(times, at, l.window).len() == failed_recently(ops, ip, at, l.window));
        }
    } else {
        assert(failures_of(l1, ip) == times);
    }
}

/// A failed attempt that is filed counts once, for its own address.
proof fn lemma_fail_files_history(
    l: LimiterModel,
    ops: Seq<LimiterOp>,
    ip: IpAddr,
    from: IpAddr,
    now: u64,
    later: u64,
)
    requires
        files_history(l, ops, ip, now),
        now <= later,
    ensures
        files_history(
            failure_filed(l, from, now),
            ops.push(LimiterOp::Fail { ip: from, now, later }),
            ip,
            now,
        ),
{
    let more = ops.push(LimiterOp::Fail { ip: from, now, later });
    assert(more.drop_last() =~= ops);
    let times = failures_of(l, ip);
    let l1 = failure_filed(l, from, now);
    if ip == from {
        let kept = pruned(times, now, l.window);
        law_prune_keeps_what_counts(times, now, l.window);
        lemma_pruned_below(times, now, l.window);
        assert(failures_of(l1, ip) == kept.push(now));
        assert forall|at: u64| at >= now implies (#[trigger] pruned(
            kept.push(now),
            at,
            l.window,
        )).len() == failed_recently(more, ip, at, l.window) by {
            lemma_pruned_push(kept, now, at, l.window);
            lemma_pruned_twice(times, now, at, l.window);
            assert(pruned(times, at, l.window).len() == failed_recently(ops, ip, at, l.window));
        }
    } else {
        assert(ip_key(ip) != ip_key(from));
        assert(failures_of(l1, ip) == times);
        assert forall|at: u64| at >= now implies (#[trigger] pruned(times, at, l.window)).len()
            == failed_recently(more, ip, at, l.window) by {}
    }
}

/// What a limiter has on file after a history counts as the history does.
proof fn lemma_history_filed(l: LimiterModel, ops: Seq<LimiterOp>, ip: IpAddr, clock: u64)
    requires
        l.failures == Map::<(u8, u128), Seq<u64>>::empty(),
        l.max_failures > 0,
        runs_forward(ops, clock),
    ensures
        files_history(limiter_after(l, ops), ops, ip, clock),
        limiter_after(l, ops).window == l.window,
        limiter_after(l, ops).max_failures == l.max_failures,
    decreases ops.len(),
{
    if ops.len() > 0 {
        let before = ops.drop_last();
        let op = ops.last();
        let l0 = limiter_after(l, before);
        lemma_history_filed(l, before, ip, op_start(op));
        assert(ops =~= before.push(op));
        let times = failures_of(l0, ip);
        let l1 = limiter_after(l, ops);
        match op {
            LimiterOp::Fail { ip: from, now, later } => {
                lemma_fail_files_history(l0, before, ip, from, now, later);
                let filed = failure_filed(l0, from, now);
                if filed.failures.dom().len() > SWEEP_THRESHOLD {
                    lemma_sweep_files_history(filed, ops, ip, now, later);
                }
            },
            LimiterOp::Ask { ip: about, now } => {
                law_prune_keeps_what_counts(times, now, l.window);
                lemma_pruned_below(times, now, l.window);
                assert forall|at: u64| at >= now implies (#[trigger] pruned(
                    failures_of(l1, ip),
                    at,
                    l.window,
                )).len() == failed_recently(ops, ip, at, l.window) by {
                    lemma_pruned_twice(times, now, at, l.window);
                    assert(pruned(times, at, l.window).len() == failed_recently(
                        before,
                        ip,
                        at,
                        l.window,
                    ));
                }
            },
            LimiterOp::Sweep { now } => {
                lemma_sweep_files_history(l0, before, ip, now, now);
                assert forall|at: u64| at >= now implies (#[trigger] pruned(
                    failures_of(l1, ip),
                    at,
                    l.window,
                )).len() == failed_recently(ops, ip, at, l.window) by {
                    assert(l1.window == l.window);
                    assert(pruned(failures_of(l1, ip), at, l1.window).len() == failed_recently(
                        before,
                        ip,
                        at,
                        l1.window,
                    ));
                }
            },
        }
    } else {
        assert(failures_of(l, ip) =~= Seq::empty());
    }
}

/// Without a budget nothing that is done gives a limiter one.
proof fn lemma_no_budget_ever(l: LimiterModel, ops: Seq<LimiterOp>)
    requires
        l.max_failures == 0,
    ensures
        limiter_after(l, ops).max_failures == 0,
    decreases ops.len(),
{
    if ops.len() > 0 {
        lemma_no_budget_ever(l, ops.drop_last());
    }
}

/// What a limiter says of an address is what its history says: after failures have been filed,
/// addresses asked about and idle ones swept out in any order, a limiter that started empty
/// limits an address exactly if there is a budget and at least as many attempts from that
/// address failed within the window. Failures of other addresses, and older ones, never count.
pub proof fn law_limited_by_history(l: LimiterModel, ops: Seq<LimiterOp>, ip: IpAddr, now: u64)
    requires
        l.failures == Map::<(u8, u128), Seq<u64>>::empty(),
        runs_forward(ops, now),
    ensures
        limited(limiter_after(l, ops), ip, now) <==> l.max_failures > 0 && failed_recently(
            ops,
            ip,
            now,
            l.window,
        ) >= l.max_failures,
{
    if l.max_failures > 0 {
        lemma_history_filed(l, ops, ip, now);
        assert(pruned(failures_of(limiter_after(l, ops), ip), now, l.window).len()
            == failed_recently(ops, ip, now, l.window));
    } else {
        lemma_no_budget_ever(l, ops);
    }
}

} // verus!
