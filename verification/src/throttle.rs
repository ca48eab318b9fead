//! Throttling of requests, host by host.
//!
//! Times are in nanoseconds since the node started.
use crate::table::{
    elapsed_seconds, law_recent_notes, law_seconds_bound, recent, seconds_between, HostTable, Stamped,
};
use vstd::prelude::*;

verus! {

/// Seconds for which a ban holds.
pub const BAN_SECONDS: u64 = 300;

/// Seconds for which a host's window is remembered.
pub const WINDOW_SECONDS: u64 = 60;

/// Requests inside one window after which the next one brings a ban.
pub const MAX_HITS: u32 = 5;

/// A host's window: when it opened, and the requests counted in it.
#[derive(Clone, Copy, Debug)]
pub struct Hits {
    pub since: u128,
    pub count: u32,
}

/// When a ban was laid on a host.
#[derive(Clone, Copy, Debug)]
pub struct Ban {
    pub since: u128,
}

impl Stamped for Hits {
    open spec fn stamp(self) -> u128 {
        self.since
    }

    fn stamped_at(&self) -> (at: u128) {
        self.since
    }
}

impl Stamped for Ban {
    open spec fn stamp(self) -> u128 {
        self.since
    }

    fn stamped_at(&self) -> (at: u128) {
        self.since
    }
}

/// The windows that hosts have open.
pub type RateLimiter = HostTable<Hits>;

/// The hosts that are banned.
pub type Blacklist = HostTable<Ban>;

/// What the windows and the bans are, without the tables that hold them.
pub struct ThrottleView {
    pub hits: Map<Seq<char>, Hits>,
    pub bans: Map<Seq<char>, Ban>,
}

impl ThrottleView {
    /// No windows and no bans.
    pub open spec fn untouched() -> ThrottleView {
        ThrottleView { hits: Map::empty(), bans: Map::empty() }
    }

    /// Whether `ip` is under a ban at `now`.
    pub open spec fn banned(self, ip: Seq<char>, now: u128) -> bool {
        self.bans.contains_key(ip) && seconds_between(self.bans[ip].since, now) < BAN_SECONDS
    }

    /// Whether `ip` has a window at `now` that is not forgotten.
    pub open spec fn remembered(self, ip: Seq<char>, now: u128) -> bool {
        self.hits.contains_key(ip) && seconds_between(self.hits[ip].since, now) < WINDOW_SECONDS
    }

    /// The window of `ip` at `now`: the remembered one, or a new one with no request.
    pub open spec fn window(self, ip: Seq<char>, now: u128) -> Hits {
        if self.remembered(ip, now) {
            self.hits[ip]
        } else {
            Hits { since: now, count: 0 }
        }
    }

    /// Whether a request of `ip` at `now` comes too soon: less than `limit_secs` seconds
    /// after its window opened.
    pub open spec fn too_soon(self, ip: Seq<char>, limit_secs: u64, now: u128) -> bool {
        seconds_between(self.window(ip, now).since, now) < limit_secs
    }

    /// Whether a request of `ip` at `now` is let in.
    pub open spec fn admits(self, ip: Seq<char>, limit_secs: u64, now: u128) -> bool {
        !self.banned(ip, now) && !self.too_soon(ip, limit_secs, now)
    }

    /// The requests counted in the window of `ip` once one at `now` came too soon.
    pub open spec fn next_count(self, ip: Seq<char>, now: u128) -> int {
        self.window(ip, now).count + 1
    }

    /// The windows after a request of `ip` at `now`. A banned host's request leaves them
    /// as they are. Any other one drops the forgotten windows and then counts in the
    /// host's window, or opens a new one where the request is let in.
    pub open spec fn hits_after(self, ip: Seq<char>, limit_secs: u64, now: u128) -> Map<
        Seq<char>,
        Hits,
    > {
        if self.banned(ip, now) {
            self.hits
        } else if self.too_soon(ip, limit_secs, now) {
            recent(self.hits, now, WINDOW_SECONDS as nat).insert(
                ip,
                Hits {
                    since: self.window(ip, now).since,
                    count: self.next_count(ip, now) as u32,
                },
            )
        } else {
            recent(self.hits, now, WINDOW_SECONDS as nat).insert(ip, Hits { since: now, count: 1 })
        }
    }

    /// The bans after a request of `ip` at `now`: those that have not run out, and a new
    /// one on `ip` where its window counts more than `MAX_HITS`.
    pub open spec fn bans_after(self, ip: Seq<char>, limit_secs: u64, now: u128) -> Map<
        Seq<char>,
        Ban,
    > {
        if !self.banned(ip, now) && self.too_soon(ip, limit_secs, now) && self.next_count(ip, now)
            > MAX_HITS {
            recent(self.bans, now, BAN_SECONDS as nat).insert(ip, Ban { since: now })
        } else {
            recent(self.bans, now, BAN_SECONDS as nat)
        }
    }

    /// The windows and the bans after a request of `ip` at `now`.
    pub open spec fn after(self, ip: Seq<char>, limit_secs: u64, now: u128) -> ThrottleView {
        ThrottleView {
            hits: self.hits_after(ip, limit_secs, now),
            bans: self.bans_after(ip, limit_secs, now),
        }
    }

    /// Whether the next count of `ip` at `now` fits its counter.
    pub open spec fn counter_fits(self, ip: Seq<char>, limit_secs: u64, now: u128) -> bool {
        !self.banned(ip, now) && self.too_soon(ip, limit_secs, now) ==> self.next_count(ip, now)
            <= u32::MAX
    }

    /// What holds of a throttle that started empty and has seen no time after `clock`: a
    /// window counts at most one request too many, and one that does belongs to a host
    /// whose ban is no older than the window.
    pub open spec fn sound_at(self, clock: u128) -> bool {
        &&& forall|ip: Seq<char>| #[trigger]
            self.hits.contains_key(ip) ==> {
                &&& self.hits[ip].since <= clock
                &&& 1 <= self.hits[ip].count <= MAX_HITS + 1
                &&& self.hits[ip].count > MAX_HITS ==> {
                    ||| self.bans.contains_key(ip) && self.hits[ip].since <= self.bans[ip].since
                    ||| seconds_between(self.hits[ip].since, clock) >= BAN_SECONDS
                }
            }
        &&& forall|ip: Seq<char>| #[trigger]
            self.bans.contains_key(ip) ==> self.bans[ip].since <= clock
    }
}

/// The windows and the bans that two tables hold.
pub open spec fn throttle_view(limiter: RateLimiter, blacklist: Blacklist) -> ThrottleView {
    ThrottleView { hits: limiter@, bans: blacklist@ }
}

/// Notes a request of `ip` at `now` and says whether it is let in.
pub fn check_rate_limit_and_blacklist(
    limiter: &mut RateLimiter,
    blacklist: &mut Blacklist,
    ip: &str,
    limit_secs: u64,
    now: u128,
) -> (allowed: bool)
    requires
        old(limiter).wf(),
        old(blacklist).wf(),
        throttle_view(*old(limiter), *old(blacklist)).counter_fits(ip@, limit_secs, now),
    ensures
        final(limiter).wf(),
        final(blacklist).wf(),
        allowed == throttle_view(*old(limiter), *old(blacklist)).admits(ip@, limit_secs, now),
        final(limiter)@ == throttle_view(*old(limiter), *old(blacklist)).hits_after(
            ip@,
            limit_secs,
            now,
        ),
        final(blacklist)@ == throttle_view(*old(limiter), *old(blacklist)).bans_after(
            ip@,
            limit_secs,
            now,
        ),
{
    blacklist.keep_recent(now, BAN_SECONDS);
    if blacklist.get(ip).is_some() {
        return false;
    }
    limiter.keep_recent(now, WINDOW_SECONDS);
    let window = match limiter.get(ip) {
        Some(hits) => hits,
        None => Hits { since: now, count: 0 },
    };
    if elapsed_seconds(window.since, now) < limit_secs as u128 {
        let count: u32 = window.count + 1;
        limiter.insert(ip, Hits { since: window.since, count });
        if count > MAX_HITS {
            blacklist.insert(ip, Ban { since: now });
        }
        false
    } else {
        limiter.insert(ip, Hits { since: now, count: 1 });
        true
    }
}

/// The throttle in front of the node's requests.
pub struct RequestThrottle {
    limiter: RateLimiter,
    blacklist: Blacklist,
}

impl View for RequestThrottle {
    type V = ThrottleView;

    closed spec fn view(&self) -> ThrottleView {
        throttle_view(self.limiter, self.blacklist)
    }
}

impl RequestThrottle {
    /// The tables hold each host once.
    pub closed spec fn wf(&self) -> bool {
        self.limiter.wf() && self.blacklist.wf()
    }

    /// A throttle that has seen no request.
    pub fn new() -> (throttle: RequestThrottle)
        ensures
            throttle.wf(),
            throttle@ == ThrottleView::untouched(),
    {
        RequestThrottle { limiter: HostTable::new(), blacklist: HostTable::new() }
    }

    /// Whether the next count of `ip` at `now` fits its counter. It does wherever requests
    /// are noted in the order of their times.
    pub fn counter_has_room(&self, ip: &str, limit_secs: u64, now: u128) -> (b: bool)
        requires
            self.wf(),
        ensures
            b == self@.counter_fits(ip@, limit_secs, now),
    {
        if let Some(ban) = self.blacklist.get(ip) {
            if elapsed_seconds(ban.since, now) < BAN_SECONDS as u128 {
                return true;
            }
        }
        if let Some(hits) = self.limiter.get(ip) {
            let secs: u128 = elapsed_seconds(hits.since, now);
            if secs < WINDOW_SECONDS as u128 && secs < limit_secs as u128 {
                return hits.count < u32::MAX;
            }
        }
        true
    }

    /// Notes a request of `ip` at `now` and says whether it is let in.
    pub fn let_in(&mut self, ip: &str, limit_secs: u64, now: u128) -> (allowed: bool)
        requires
            old(self).wf(),
            old(self)@.counter_fits(ip@, limit_secs, now),
        ensures
            final(self).wf(),
            allowed == old(self)@.admits(ip@, limit_secs, now),
            final(self)@ == old(self)@.after(ip@, limit_secs, now),
    {
        check_rate_limit_and_blacklist(
            &mut self.limiter,
            &mut self.blacklist,
            ip,
            limit_secs,
            now,
        )
    }

    /// The number of hosts with a window on record.
    pub fn window_count(&self) -> (n: usize)
        requires
            self.wf(),
        ensures
            n == self@.hits.dom().len(),
    {
        self.limiter.len()
    }

    /// The number of hosts with a ban on record.
    pub fn ban_count(&self) -> (n: usize)
        requires
            self.wf(),
        ensures
            n == self@.bans.dom().len(),
    {
        self.blacklist.len()
    }
}

/// A request that reaches the throttle.
pub struct Visit {
    pub ip: Seq<char>,
    pub limit_secs: u64,
    pub at: u128,
}

/// The throttle after `visits`, in order.
pub open spec fn after_visits(throttle: ThrottleView, visits: Seq<Visit>) -> ThrottleView
    decreases visits.len(),
{
    if visits.len() == 0 {
        throttle
    } else {
        let v = visits.last();
        after_visits(throttle, visits.drop_last()).after(v.ip, v.limit_secs, v.at)
    }
}

proof fn lemma_seconds_grow(a: u128, b: u128, c: u128)
    requires
        b <= c,
    ensures
        seconds_between(a, b) <= seconds_between(a, c),
{
}

proof fn lemma_seconds_shrink(a: u128, b: u128, c: u128)
    requires
        a <= b,
    ensures
        seconds_between(b, c) <= seconds_between(a, c),
{
}

/// A sound throttle stays sound, and its counters never run over, as long as time does not
/// go back.
pub proof fn law_throttle_stays_sound(
    throttle: ThrottleView,
    ip: Seq<char>,
    limit_secs: u64,
    clock: u128,
    now: u128,
)
    requires
        throttle.sound_at(clock),
        clock <= now,
    ensures
        throttle.counter_fits(ip, limit_secs, now),
        throttle.after(ip, limit_secs, now).sound_at(now),
{
    assert forall|h: Seq<char>| #[trigger]
        throttle.hits.contains_key(h) && throttle.hits[h].count > MAX_HITS && !throttle.banned(
            h,
            now,
        ) implies seconds_between(throttle.hits[h].since, now) >= BAN_SECONDS by {
        lemma_seconds_grow(throttle.hits[h].since, clock, now);
        if throttle.bans.contains_key(h) && throttle.hits[h].since <= throttle.bans[h].since {
            lemma_seconds_shrink(throttle.hits[h].since, throttle.bans[h].since, now);
        }
    }
    let next = throttle.after(ip, limit_secs, now);
    assert forall|h: Seq<char>| #[trigger] next.hits.contains_key(h) implies {
        &&& next.hits[h].since <= now
        &&& 1 <= next.hits[h].count <= MAX_HITS + 1
        &&& next.hits[h].count > MAX_HITS ==> {
            ||| next.bans.contains_key(h) && next.hits[h].since <= next.bans[h].since
            ||| seconds_between(next.hits[h].since, now) >= BAN_SECONDS
        }
    } by {
        if throttle.hits.contains_key(h) {
            lemma_seconds_grow(throttle.hits[h].since, clock, now);
        }
    }
}

/// Whether `visits` come in the order of their times, none after `now`.
pub open spec fn in_order(visits: Seq<Visit>, now: u128) -> bool {
    &&& forall|i: int, j: int|
        0 <= i < j < visits.len() ==> (#[trigger] visits[i]).at <= (#[trigger] visits[j]).at
    &&& forall|i: int| 0 <= i < visits.len() ==> (#[trigger] visits[i]).at <= now
}

/// A throttle that started untouched and notes requests in the order of their times never
/// runs a counter over, whatever the requests are.
pub proof fn law_counters_fit_in_order(
    visits: Seq<Visit>,
    ip: Seq<char>,
    limit_secs: u64,
    now: u128,
)
    requires
        in_order(visits, now),
    ensures
        after_visits(ThrottleView::untouched(), visits).sound_at(now),
        after_visits(ThrottleView::untouched(), visits).counter_fits(ip, limit_secs, now),
    decreases visits.len(),
{
    let throttle = after_visits(ThrottleView::untouched(), visits);
    if visits.len() > 0 {
        let earlier = visits.drop_last();
        let v = visits.last();
        assert(visits[visits.len() - 1] == v);
        assert(forall|i: int| 0 <= i < earlier.len() ==> #[trigger] earlier[i] == visits[i]);
        law_counters_fit_in_order(earlier, v.ip, v.limit_secs, v.at);
        law_throttle_stays_sound(
            after_visits(ThrottleView::untouched(), earlier),
            v.ip,
            v.limit_secs,
            v.at,
            v.at,
        );
        lemma_sound_later(throttle, v.at, now);
    }
    law_throttle_stays_sound(throttle, ip, limit_secs, now, now);
}

proof fn lemma_sound_later(throttle: ThrottleView, clock: u128, now: u128)
    requires
        throttle.sound_at(clock),
        clock <= now,
    ensures
        throttle.sound_at(now),
{
    assert forall|ip: Seq<char>| #[trigger] throttle.hits.contains_key(ip) implies seconds_between(
        throttle.hits[ip].since,
        clock,
    ) <= seconds_between(throttle.hits[ip].since, now) by {
        lemma_seconds_grow(throttle.hits[ip].since, clock, now);
    }
}

/// A host under a ban is refused.
pub proof fn law_banned_is_refused(throttle: ThrottleView, ip: Seq<char>, limit_secs: u64, now: u128)
    requires
        throttle.banned(ip, now),
    ensures
        !throttle.admits(ip, limit_secs, now),
{
}

/// A ban holds for `BAN_SECONDS` seconds from the request that brought it, whatever
/// requests the throttle sees meanwhile.
pub proof fn law_ban_holds(
    throttle: ThrottleView,
    ip: Seq<char>,
    limit_secs: u64,
    at: u128,
    visits: Seq<Visit>,
    now: u128,
)
    requires
        !throttle.banned(ip, at),
        throttle.too_soon(ip, limit_secs, at),
        throttle.next_count(ip, at) > MAX_HITS,
        forall|i: int| 0 <= i < visits.len() ==> at <= (#[trigger] visits[i]).at <= now,
        seconds_between(at, now) < BAN_SECONDS,
    ensures
        after_visits(throttle.after(ip, limit_secs, at), visits).banned(ip, now),
{
    lemma_ban_stays(throttle.after(ip, limit_secs, at), ip, at, visits, now);
}

proof fn lemma_ban_stays(throttle: ThrottleView, ip: Seq<char>, at: u128, visits: Seq<Visit>, now: u128)
    requires
        throttle.bans.contains_key(ip),
        throttle.bans[ip].since == at,
        forall|i: int| 0 <= i < visits.len() ==> at <= (#[trigger] visits[i]).at <= now,
        seconds_between(at, now) < BAN_SECONDS,
    ensures
        after_visits(throttle, visits).bans.contains_key(ip),
        after_visits(throttle, visits).bans[ip].since == at,
    decreases visits.len(),
{
    if visits.len() > 0 {
        let v = visits.last();
        assert forall|i: int| 0 <= i < visits.drop_last().len() implies at <= (
        #[trigger] visits.drop_last()[i]).at <= now by {
            assert(visits.drop_last()[i] == visits[i]);
        }
        lemma_ban_stays(throttle, ip, at, visits.drop_last(), now);
        assert(visits[visits.len() - 1] == v);
        lemma_seconds_grow(at, v.at, now);
    }
}

/// A host whose window is not remembered is refused wherever the limit is not zero, and
/// its request opens a window.
pub proof fn law_unknown_host_is_refused(
    throttle: ThrottleView,
    ip: Seq<char>,
    limit_secs: u64,
    now: u128,
)
    requires
        !throttle.banned(ip, now),
        !throttle.remembered(ip, now),
        limit_secs > 0,
    ensures
        !throttle.admits(ip, limit_secs, now),
        throttle.after(ip, limit_secs, now).hits[ip] == (Hits { since: now, count: 1 }),
{
}

/// Once a request of a host is let in, another one is refused until its limit has passed,
/// whatever requests the throttle sees meanwhile.
pub proof fn law_admissions_are_spaced(
    throttle: ThrottleView,
    ip: Seq<char>,
    first_limit: u64,
    at: u128,
    visits: Seq<Visit>,
    limit_secs: u64,
    now: u128,
)
    requires
        throttle.admits(ip, first_limit, at),
        forall|i: int| 0 <= i < visits.len() ==> at <= (#[trigger] visits[i]).at <= now,
        seconds_between(at, now) < limit_secs,
    ensures
        !after_visits(throttle.after(ip, first_limit, at), visits).admits(ip, limit_secs, now),
{
    let opened = throttle.after(ip, first_limit, at);
    lemma_window_not_older(opened, ip, at, visits, now);
    let g = after_visits(opened, visits);
    lemma_seconds_shrink(at, g.window(ip, now).since, now);
}

proof fn lemma_window_not_older(
    throttle: ThrottleView,
    ip: Seq<char>,
    at: u128,
    visits: Seq<Visit>,
    now: u128,
)
    requires
        throttle.hits.contains_key(ip) ==> at <= throttle.hits[ip].since,
        forall|i: int| 0 <= i < visits.len() ==> at <= (#[trigger] visits[i]).at <= now,
    ensures
        after_visits(throttle, visits).hits.contains_key(ip) ==> at <= after_visits(
            throttle,
            visits,
        ).hits[ip].since,
    decreases visits.len(),
{
    if visits.len() > 0 {
        let v = visits.last();
        assert forall|i: int| 0 <= i < visits.drop_last().len() implies at <= (
        #[trigger] visits.drop_last()[i]).at <= now by {
            assert(visits.drop_last()[i] == visits[i]);
        }
        lemma_window_not_older(throttle, ip, at, visits.drop_last(), now);
        assert(visits[visits.len() - 1] == v);
    }
}

/// A request drops the bans that have run out, and one that is not stopped by a ban drops
/// the windows that are forgotten.
pub proof fn law_old_notes_are_dropped(
    throttle: ThrottleView,
    ip: Seq<char>,
    limit_secs: u64,
    now: u128,
    host: Seq<char>,
)
    ensures
        throttle.after(ip, limit_secs, now).bans.contains_key(host) ==> throttle.after(
            ip,
            limit_secs,
            now,
        ).banned(host, now),
        !throttle.banned(ip, now) && throttle.after(ip, limit_secs, now).hits.contains_key(host)
            ==> throttle.after(ip, limit_secs, now).remembered(host, now),
{
}

/// A request of one host changes nothing for another, then or later.
pub proof fn law_hosts_do_not_interfere(
    throttle: ThrottleView,
    other: Seq<char>,
    other_limit: u64,
    at: u128,
    ip: Seq<char>,
    limit_secs: u64,
    now: u128,
)
    requires
        ip != other,
        at <= now,
    ensures
        throttle.after(other, other_limit, at).banned(ip, now) == throttle.banned(ip, now),
        throttle.after(other, other_limit, at).window(ip, now) == throttle.window(ip, now),
        throttle.after(other, other_limit, at).admits(ip, limit_secs, now) == throttle.admits(
            ip,
            limit_secs,
            now,
        ),
{
    if throttle.bans.contains_key(ip) {
        lemma_seconds_grow(throttle.bans[ip].since, at, now);
    }
    if throttle.hits.contains_key(ip) {
        lemma_seconds_grow(throttle.hits[ip].since, at, now);
    }
}

/// A host that is not banned and whose remembered window opened as many seconds ago as the
/// limit asks for, or more, is let in, however many requests the window counts. Where the
/// limit is zero, every host that is not banned is let in.
pub proof fn law_patient_host_is_let_in(
    throttle: ThrottleView,
    ip: Seq<char>,
    limit_secs: u64,
    now: u128,
)
    ensures
        !throttle.banned(ip, now) && throttle.remembered(ip, now) && seconds_between(
            throttle.hits[ip].since,
            now,
        ) >= limit_secs ==> throttle.admits(ip, limit_secs, now),
        !throttle.banned(ip, now) && limit_secs == 0 ==> throttle.admits(ip, limit_secs, now),
{
}

/// Whether a request is let in goes by three times alone, in nanoseconds. A ban laid on the
/// host less than 300 seconds ago stops it. So does a window of the host that is less than
/// 60 seconds old and opened less than the limit ago, and so does any limit but zero where
/// there is no such window. Nothing else does, and no count matters.
pub proof fn law_when_a_host_is_let_in(
    throttle: ThrottleView,
    ip: Seq<char>,
    limit_secs: u64,
    now: u128,
)
    ensures
        throttle.banned(ip, now) <==> throttle.bans.contains_key(ip) && now < throttle.bans[ip].since
            + 300_000_000_000,
        throttle.remembered(ip, now) <==> throttle.hits.contains_key(ip) && now
            < throttle.hits[ip].since + 60_000_000_000,
        throttle.admits(ip, limit_secs, now) <==> {
            &&& throttle.bans.contains_key(ip) ==> now >= throttle.bans[ip].since + 300_000_000_000
            &&& limit_secs == 0 || {
                &&& throttle.hits.contains_key(ip)
                &&& throttle.hits[ip].since + limit_secs * 1_000_000_000 <= now
                    < throttle.hits[ip].since + 60_000_000_000
            }
        },
{
    if throttle.bans.contains_key(ip) {
        law_seconds_bound(throttle.bans[ip].since, now, 300);
    }
    if throttle.hits.contains_key(ip) {
        law_seconds_bound(throttle.hits[ip].since, now, 60);
        law_seconds_bound(throttle.hits[ip].since, now, limit_secs as nat);
    }
    law_seconds_bound(now, now, limit_secs as nat);
}

/// What a request leaves noted of its own host. A banned host's request changes nothing of
/// it. One that is let in opens a window with one request. One that is refused counts one
/// more in the host's remembered window, or opens a window, and brings a ban where the
/// window had counted five or more.
pub proof fn law_what_is_noted_of_the_host(
    throttle: ThrottleView,
    ip: Seq<char>,
    limit_secs: u64,
    now: u128,
)
    requires
        throttle.hits.contains_key(ip) ==> throttle.hits[ip].count < u32::MAX,
    ensures
        ({
            let after = throttle.after(ip, limit_secs, now);
            let known = throttle.hits.contains_key(ip) && now < throttle.hits[ip].since
                + 60_000_000_000;
            let banned = throttle.bans.contains_key(ip) && now < throttle.bans[ip].since
                + 300_000_000_000;
            let refused = !banned && !throttle.admits(ip, limit_secs, now);
            &&& banned ==> after.hits == throttle.hits && after.bans.contains_key(ip)
                && after.bans[ip].since == throttle.bans[ip].since
            &&& !banned ==> after.hits.contains_key(ip)
            &&& !banned && !refused ==> after.hits[ip].since == now && after.hits[ip].count == 1
            &&& refused && known ==> after.hits[ip].since == throttle.hits[ip].since
                && after.hits[ip].count == throttle.hits[ip].count + 1
            &&& refused && !known ==> after.hits[ip].since == now && after.hits[ip].count == 1
            &&& !banned ==> (after.bans.contains_key(ip) <==> refused && known
                && throttle.hits[ip].count >= 5)
            &&& !banned && after.bans.contains_key(ip) ==> after.bans[ip].since == now
        }),
{
    law_when_a_host_is_let_in(throttle, ip, limit_secs, now);
    law_recent_notes(throttle.bans, now, 300, ip);
}

/// What a request leaves noted of other hosts: bans younger than 300 seconds, and windows as
/// they are where the requesting host is banned, else those younger than 60 seconds.
pub proof fn law_what_is_noted_of_others(
    throttle: ThrottleView,
    ip: Seq<char>,
    limit_secs: u64,
    now: u128,
    other: Seq<char>,
)
    requires
        other != ip,
    ensures
        ({
            let after = throttle.after(ip, limit_secs, now);
            let banned = throttle.bans.contains_key(ip) && now < throttle.bans[ip].since
                + 300_000_000_000;
            &&& after.bans.contains_key(other) <==> throttle.bans.contains_key(other) && now
                < throttle.bans[other].since + 300_000_000_000
            &&& after.bans.contains_key(other) ==> after.bans[other] == throttle.bans[other]
            &&& after.hits.contains_key(other) <==> throttle.hits.contains_key(other) && (banned
                || now < throttle.hits[other].since + 60_000_000_000)
            &&& after.hits.contains_key(other) ==> after.hits[other] == throttle.hits[other]
        }),
{
    law_when_a_host_is_let_in(throttle, ip, limit_secs, now);
    law_recent_notes(throttle.bans, now, 300, other);
    law_recent_notes(throttle.hits, now, 60, other);
}

/// What the check says of a request, in the tables that it is made with.
pub proof fn law_check_of_a_request(ip: &str, limit_secs: u64, now: u128)
    ensures
        forall|limiter: &mut RateLimiter, blacklist: &mut Blacklist, allowed: bool| #[trigger]
            call_ensures(
                check_rate_limit_and_blacklist,
                (limiter, blacklist, ip, limit_secs, now),
                allowed,
            ) ==> {
                &&& allowed <==> {
                    &&& blacklist@.contains_key(ip@) ==> now >= blacklist@[ip@].since
                        + 300_000_000_000
                    &&& limit_secs == 0 || {
                        &&& limiter@.contains_key(ip@)
                        &&& limiter@[ip@].since + limit_secs * 1_000_000_000 <= now
                            < limiter@[ip@].since + 60_000_000_000
                    }
                }
                &&& throttle_view(*final(limiter), *final(blacklist)) == (ThrottleView {
                    hits: limiter@,
                    bans: blacklist@,
                }).after(ip@, limit_secs, now)
            },
{
    assert forall|limiter: &mut RateLimiter, blacklist: &mut Blacklist, allowed: bool| #[trigger]
        call_ensures(
            check_rate_limit_and_blacklist,
            (limiter, blacklist, ip, limit_secs, now),
            allowed,
        ) implies {
        &&& allowed <==> {
            &&& blacklist@.contains_key(ip@) ==> now >= blacklist@[ip@].since + 300_000_000_000
            &&& limit_secs == 0 || {
                &&& limiter@.contains_key(ip@)
                &&& limiter@[ip@].since + limit_secs * 1_000_000_000 <= now < limiter@[ip@].since
                    + 60_000_000_000
            }
        }
        &&& throttle_view(*final(limiter), *final(blacklist)) == (ThrottleView {
            hits: limiter@,
            bans: blacklist@,
        }).after(ip@, limit_secs, now)
    } by {
        let throttle = throttle_view(*limiter, *blacklist);
        law_when_a_host_is_let_in(throttle, ip@, limit_secs, now);
    }
}

/// What the throttle in front of the requests says and notes.
pub proof fn law_throttle_lets_in(ip: &str, limit_secs: u64, now: u128)
    ensures
        forall|throttle: &mut RequestThrottle, allowed: bool| #[trigger]
            call_ensures(RequestThrottle::let_in, (throttle, ip, limit_secs, now), allowed) ==> {
                &&& allowed <==> {
                    &&& throttle@.bans.contains_key(ip@) ==> now >= throttle@.bans[ip@].since
                        + 300_000_000_000
                    &&& limit_secs == 0 || {
                        &&& throttle@.hits.contains_key(ip@)
                        &&& throttle@.hits[ip@].since + limit_secs * 1_000_000_000 <= now
                            < throttle@.hits[ip@].since + 60_000_000_000
                    }
                }
                &&& final(throttle)@ == throttle@.after(ip@, limit_secs, now)
            },
{
    assert forall|throttle: &mut RequestThrottle, allowed: bool| #[trigger]
        call_ensures(RequestThrottle::let_in, (throttle, ip, limit_secs, now), allowed) implies {
        &&& allowed <==> {
            &&& throttle@.bans.contains_key(ip@) ==> now >= throttle@.bans[ip@].since
                + 300_000_000_000
            &&& limit_secs == 0 || {
                &&& throttle@.hits.contains_key(ip@)
                &&& throttle@.hits[ip@].since + limit_secs * 1_000_000_000 <= now
                    < throttle@.hits[ip@].since + 60_000_000_000
            }
        }
        &&& final(throttle)@ == throttle@.after(ip@, limit_secs, now)
    } by {
        law_when_a_host_is_let_in(throttle@, ip@, limit_secs, now);
    }
}

/// A counter has no room exactly where one more request would be counted in a remembered
/// window that counts the most it can.
pub proof fn law_counter_room(throttle: &RequestThrottle, ip: &str, limit_secs: u64, now: u128, b: bool)
    requires
        call_ensures(RequestThrottle::counter_has_room, (throttle, ip, limit_secs, now), b),
    ensures
        b == throttle@.counter_fits(ip@, limit_secs, now),
        !b <==> {
            &&& throttle@.bans.contains_key(ip@) ==> now >= throttle@.bans[ip@].since
                + 300_000_000_000
            &&& throttle@.hits.contains_key(ip@)
            &&& now < throttle@.hits[ip@].since + 60_000_000_000
            &&& limit_secs > 0 && now < throttle@.hits[ip@].since + limit_secs * 1_000_000_000
            &&& throttle@.hits[ip@].count == u32::MAX
        },
{
    law_when_a_host_is_let_in(throttle@, ip@, limit_secs, now);
    if throttle@.hits.contains_key(ip@) {
        law_seconds_bound(throttle@.hits[ip@].since, now, limit_secs as nat);
    }
}

/// The sixth request of a window that comes too soon brings the ban, and the fifth does not:
/// a host whose window counts `count` is banned after a refused request exactly where
/// `count` is five or more, and stays refused for 300 seconds from then.
pub proof fn law_ban_follows_the_fifth(
    throttle: ThrottleView,
    ip: Seq<char>,
    limit_secs: u64,
    at: u128,
    later_limit: u64,
    later: u128,
)
    requires
        !throttle.banned(ip, at),
        throttle.remembered(ip, at),
        !throttle.admits(ip, limit_secs, at),
        at <= later < at + 300_000_000_000,
    ensures
        throttle.hits[ip].count >= 5 ==> !throttle.after(ip, limit_secs, at).admits(
            ip,
            later_limit,
            later,
        ),
        throttle.hits[ip].count < 5 ==> !throttle.after(ip, limit_secs, at).banned(ip, later),
{
    law_when_a_host_is_let_in(throttle, ip, limit_secs, at);
    law_when_a_host_is_let_in(throttle.after(ip, limit_secs, at), ip, later_limit, later);
}

/// A new throttle knows no host, and the two counts are the hosts with a window and the hosts
/// with a ban.
pub proof fn law_throttle_counts(
    fresh: RequestThrottle,
    throttle: &RequestThrottle,
    windows: usize,
    bans: usize,
)
    requires
        call_ensures(RequestThrottle::new, (), fresh),
        call_ensures(RequestThrottle::window_count, (throttle,), windows),
        call_ensures(RequestThrottle::ban_count, (throttle,), bans),
    ensures
        forall|ip: Seq<char>| !fresh@.hits.contains_key(ip) && !fresh@.bans.contains_key(ip),
        windows == throttle@.hits.dom().len(),
        bans == throttle@.bans.dom().len(),
{
}

} // verus!
