use vstd::prelude::*;
use crate::error::{conflict, forbidden, internal, not_found, ErrorKind, ServerError};

verus! {

/// How long, in seconds, a registration or renewal keeps a target alive.
pub const TARGET_TTL: u64 = 600;

/// How often, in seconds, the sweeper deletes expired targets.
pub const SWEEP_PERIOD: u64 = 10;

/// A native client registered to receive raw telemetry datagrams.
#[derive(Clone, Debug)]
pub struct ForwardingTarget {
    pub target_id: u128,
    pub host: String,
    pub port: u16,
    /// Epoch seconds after which the target is dropped.
    pub expiration: u64,
}

impl ForwardingTarget {
    /// A copy of this target.
    pub fn copy(&self) -> (r: ForwardingTarget)
        ensures
            r == *self,
    {
        ForwardingTarget {
            target_id: self.target_id,
            host: self.host.clone(),
            port: self.port,
            expiration: self.expiration,
        }
    }
}

/// Two targets are registered for the same socket address.
pub open spec fn same_address(a: ForwardingTarget, b: ForwardingTarget) -> bool {
    a.host@ == b.host@ && a.port == b.port
}

/// Targets have distinct ids and distinct socket addresses.
pub open spec fn targets_unique(s: Seq<ForwardingTarget>) -> bool {
    forall|i: int, j: int|
        0 <= i < j < s.len() ==> (#[trigger] s[i]).target_id != (#[trigger] s[j]).target_id && !same_address(s[i], s[j])
}

/// Some target has the given socket address.
pub open spec fn address_taken(s: Seq<ForwardingTarget>, host: Seq<char>, port: u16) -> bool {
    exists|i: int| 0 <= i < s.len() && (#[trigger] s[i]).host@ == host && s[i].port == port
}

/// Some target has the given id.
pub open spec fn id_taken(s: Seq<ForwardingTarget>, id: u128) -> bool {
    exists|i: int| 0 <= i < s.len() && (#[trigger] s[i]).target_id == id
}

/// The targets that a sweep at `now` keeps: those not yet expired, in order.
pub open spec fn unexpired(s: Seq<ForwardingTarget>, now: u64) -> Seq<ForwardingTarget>
    decreases s.len(),
{
    if s.len() == 0 {
        seq![]
    } else if s.last().expiration > now {
        unexpired(s.drop_last(), now).push(s.last())
    } else {
        unexpired(s.drop_last(), now)
    }
}

/// A sweep keeps targets of the list only, all unexpired, and keeps ids and
/// addresses distinct.
pub proof fn lemma_unexpired(s: Seq<ForwardingTarget>, now: u64)
    ensures
        forall|k: int| 0 <= k < unexpired(s, now).len() ==> s.contains(#[trigger] unexpired(s, now)[k])
            && unexpired(s, now)[k].expiration > now,
        targets_unique(s) ==> targets_unique(unexpired(s, now)),
        forall|k: int| 0 <= k < s.len() && (#[trigger] s[k]).expiration > now ==> unexpired(s, now).contains(s[k]),
    decreases s.len(),
{
    if s.len() > 0 {
        let init = s.drop_last();
        lemma_unexpired(init, now);
        let p = unexpired(init, now);
        let f = unexpired(s, now);
        assert forall|k: int| 0 <= k < f.len() implies s.contains(#[trigger] f[k]) && f[k].expiration > now by {
            if k < p.len() {
                assert(f[k] == p[k]);
                let j = choose|j: int| 0 <= j < init.len() && init[j] == p[k];
                assert(s[j] == init[j]);
            } else {
                assert(f[k] == s[s.len() - 1]);
            }
        }
        assert forall|k: int| 0 <= k < s.len() && (#[trigger] s[k]).expiration > now implies f.contains(s[k]) by {
            if k < s.len() - 1 {
                assert(init[k] == s[k]);
                let j = choose|j: int| 0 <= j < p.len() && p[j] == init[k];
                if s.last().expiration > now {
                    assert(f[j] == p[j]);
                } else {
                    assert(f == p);
                }
            } else {
                assert(f[f.len() - 1] == s[k]);
            }
        }
        if targets_unique(s) {
            assert(targets_unique(init)) by {
                assert forall|i: int, j: int| 0 <= i < j < init.len() implies (#[trigger] init[i]).target_id
                    != (#[trigger] init[j]).target_id && !same_address(init[i], init[j]) by {
                    assert(init[i] == s[i] && init[j] == s[j]);
                }
            }
            if s.last().expiration > now {
                assert forall|i: int, j: int| 0 <= i < j < f.len() implies (#[trigger] f[i]).target_id
                    != (#[trigger] f[j]).target_id && !same_address(f[i], f[j]) by {
                    if j < p.len() {
                        assert(f[i] == p[i] && f[j] == p[j]);
                    } else {
                        assert(init.contains(p[i]));
                        let a = choose|a: int| 0 <= a < init.len() && init[a] == p[i];
                        assert(f[i] == p[i]);
                        assert(s[a] == init[a]);
                        assert(f[j] == s[s.len() - 1]);
                    }
                }
            }
        }
    }
}

/// The expiration of a target registered or renewed at `now`: `TARGET_TTL`
/// seconds later, held at the largest time when that would overflow.
pub open spec fn expiry(now: u64) -> u64 {
    if now <= u64::MAX - TARGET_TTL { (now + TARGET_TTL) as u64 } else { u64::MAX }
}

/// The expiration of a target registered or renewed at `now`.
pub fn expiry_of(now: u64) -> (r: u64)
    ensures
        r == expiry(now),
{
    if now <= u64::MAX - TARGET_TTL { now + TARGET_TTL } else { u64::MAX }
}

/// What renewing target `id` from `host` at `now` gives: `NotFound` when no
/// target has the id, `Forbidden` when the target was registered from another
/// host, and otherwise the targets with that one's expiration moved to `expiry(now)`.
pub open spec fn renew_result(s: Seq<ForwardingTarget>, id: u128, host: Seq<char>, now: u64) -> Result<Seq<ForwardingTarget>, ErrorKind> {
    if id_taken(s, id) {
        let i = choose|i: int| 0 <= i < s.len() && (#[trigger] s[i]).target_id == id;
        if s[i].host@ == host {
            Ok(s.update(i, ForwardingTarget { expiration: expiry(now), ..s[i] }))
        } else {
            Err(ErrorKind::Forbidden)
        }
    } else {
        Err(ErrorKind::NotFound)
    }
}

/// A renewal is authenticated by host: once a target is registered from one
/// host, renewing it from any other host is refused with `Forbidden`, which
/// leaves every target, and that one's expiration, as it was.
pub proof fn lemma_renewal_authentication(
    before: Seq<ForwardingTarget>,
    target: ForwardingTarget,
    requester: Seq<char>,
    now: u64,
)
    requires
        !id_taken(before, target.target_id),
        target.host@ != requester,
    ensures
        renew_result(before.push(target), target.target_id, requester, now) == Err::<Seq<ForwardingTarget>, ErrorKind>(ErrorKind::Forbidden),
{
    let s = before.push(target);
    assert(s[before.len() as int].target_id == target.target_id);
    assert(id_taken(s, target.target_id));
    let i = choose|i: int| 0 <= i < s.len() && (#[trigger] s[i]).target_id == target.target_id;
    if i < before.len() {
        assert(before[i] == s[i]);
    }
}

/// Relies on `uuid::Uuid::new_v4`, read as its 128-bit value: a random
/// version-4 id. Nothing is known of the value, so nothing is stated of it.
#[verifier::external_body]
fn fresh_target_id() -> (r: u128) {
    uuid::Uuid::new_v4().as_u128()
}

/// The registered forwarding targets.
pub struct TargetTable {
    targets: Vec<ForwardingTarget>,
}

impl TargetTable {
    /// The registered targets, in order of registration.
    pub closed spec fn targets(&self) -> Seq<ForwardingTarget> {
        self.targets@
    }

    /// Ids and socket addresses are distinct.
    pub open spec fn wf(&self) -> bool {
        targets_unique(self.targets())
    }

    /// A table with no targets.
    pub fn new() -> (r: TargetTable)
        ensures
            r.wf(),
            r.targets().len() == 0,
    {
        TargetTable { targets: Vec::new() }
    }

    /// The targets alive at `now`, to which telemetry is mirrored.
    pub fn live_targets(&self, now: u64) -> (r: Vec<ForwardingTarget>)
        ensures
            r@ == unexpired(self.targets(), now),
    {
        let mut kept: Vec<ForwardingTarget> = Vec::new();
        let mut i: usize = 0;
        while i < self.targets.len()
            invariant
                i <= self.targets@.len(),
                kept@ == unexpired(self.targets@.take(i as int), now),
            decreases self.targets@.len() - i,
        {
            proof {
                assert(self.targets@.take(i + 1).drop_last() =~= self.targets@.take(i as int));
            }
            if self.targets[i].expiration > now {
                kept.push(self.targets[i].copy());
            }
            i = i + 1;
        }
        proof {
            assert(self.targets@.take(i as int) =~= self.targets@);
        }
        kept
    }

    /// The registered targets.
    pub fn target_list(&self) -> (r: &Vec<ForwardingTarget>)
        ensures
            r@ == self.targets(),
    {
        &self.targets
    }

    /// The position of the target with the given socket address.
    fn address_index(&self, host: &String, port: u16) -> (r: Option<usize>)
        ensures
            r matches Some(i) ==> i < self.targets().len() && self.targets()[i as int].host@ == host@
                && self.targets()[i as int].port == port,
            r is None ==> !address_taken(self.targets(), host@, port),
    {
        let mut i: usize = 0;
        while i < self.targets.len()
            invariant
                i <= self.targets@.len(),
                forall|k: int| 0 <= k < i ==> !((#[trigger] self.targets@[k]).host@ == host@ && self.targets@[k].port == port),
            decreases self.targets@.len() - i,
        {
            if self.targets[i].port == port && self.targets[i].host.eq(host) {
                return Some(i);
            }
            i = i + 1;
        }
        None
    }

    /// The position of the target with the given id.
    fn id_index(&self, target_id: u128) -> (r: Option<usize>)
        ensures
            r matches Some(i) ==> i < self.targets().len() && self.targets()[i as int].target_id == target_id,
            r is None ==> !id_taken(self.targets(), target_id),
    {
        let mut i: usize = 0;
        while i < self.targets.len()
            invariant
                i <= self.targets@.len(),
                forall|k: int| 0 <= k < i ==> (#[trigger] self.targets@[k]).target_id != target_id,
            decreases self.targets@.len() - i,
        {
            if self.targets[i].target_id == target_id {
                return Some(i);
            }
            i = i + 1;
        }
        None
    }

    /// Registers a target under the given id, alive until `TARGET_TTL` seconds after `now`.
    /// `Conflict` when its socket address is registered; `Internal` when the id is.
    pub fn register_with_id(&mut self, target_id: u128, host: &String, port: u16, now: u64) -> (r: Result<(), ServerError>)
        requires
            old(self).wf(),
        ensures
            final(self).wf(),
            address_taken(old(self).targets(), host@, port) ==> (r matches Err(e) && e.kind == ErrorKind::Conflict),
            !address_taken(old(self).targets(), host@, port) && id_taken(old(self).targets(), target_id) ==> (
                r matches Err(e) && e.kind == ErrorKind::Internal),
            r is Ok <==> !address_taken(old(self).targets(), host@, port) && !id_taken(old(self).targets(), target_id),
            r is Ok ==> final(self).targets() == old(self).targets().push(
                ForwardingTarget { target_id, host: *host, port, expiration: expiry(now) },
            ),
            r is Err ==> final(self).targets() == old(self).targets(),
    {
        if self.address_index(host, port).is_some() {
            return Err(conflict("a target with that socket address is already registered"));
        }
        if self.id_index(target_id).is_some() {
            return Err(internal("target id already in use"));
        }
        let ghost before = self.targets@;
        let target = ForwardingTarget { target_id, host: host.clone(), port, expiration: expiry_of(now) };
        self.targets.push(target);
        proof {
            assert forall|i: int, j: int| 0 <= i < j < self.targets@.len() implies (#[trigger] self.targets@[i]).target_id
                != (#[trigger] self.targets@[j]).target_id && !same_address(self.targets@[i], self.targets@[j]) by {
                assert(self.targets@[i] == before[i]);
                if j < before.len() {
                    assert(self.targets@[j] == before[j]);
                }
            }
        }
        Ok(())
    }

    /// Registers a target under a fresh random id and returns the id.
    /// `Conflict` when its socket address is registered.
    pub fn register(&mut self, host: &String, port: u16, now: u64) -> (r: Result<u128, ServerError>)
        requires
            old(self).wf(),
        ensures
            final(self).wf(),
            address_taken(old(self).targets(), host@, port) ==> (r matches Err(e) && e.kind == ErrorKind::Conflict),
            !address_taken(old(self).targets(), host@, port) ==> (r matches Err(e) ==> e.kind == ErrorKind::Internal),
            old(self).targets().len() == 0 ==> r is Ok,
            r matches Ok(id) ==> final(self).targets() == old(self).targets().push(
                ForwardingTarget { target_id: id, host: *host, port, expiration: expiry(now) },
            ),
            r is Err ==> final(self).targets() == old(self).targets(),
    {
        let id = fresh_target_id();
        match self.register_with_id(id, host, port, now) {
            Ok(()) => Ok(id),
            Err(e) => Err(e),
        }
    }

    /// Renews a target for `TARGET_TTL` seconds from `now`. `NotFound` when no
    /// target has the id; `Forbidden`, with nothing changed, when the request
    /// comes from another host than the target's.
    pub fn renew(&mut self, target_id: u128, requester_host: &String, now: u64) -> (r: Result<(), ServerError>)
        requires
            old(self).wf(),
        ensures
            final(self).wf(),
            !id_taken(old(self).targets(), target_id) ==> (r matches Err(e) && e.kind == ErrorKind::NotFound),
            forall|i: int| 0 <= i < old(self).targets().len() && (#[trigger] old(self).targets()[i]).target_id == target_id ==> {
                &&& old(self).targets()[i].host@ != requester_host@ ==> (r matches Err(e) && e.kind == ErrorKind::Forbidden)
                &&& old(self).targets()[i].host@ == requester_host@ ==> (r is Ok && final(self).targets()
                    == old(self).targets().update(i, ForwardingTarget {
                        expiration: expiry(now),
                        ..old(self).targets()[i]
                    }))
            },
            r is Err ==> final(self).targets() == old(self).targets(),
            renew_result(old(self).targets(), target_id, requester_host@, now) matches Ok(t) ==> (r is Ok
                && final(self).targets() == t),
            renew_result(old(self).targets(), target_id, requester_host@, now) matches Err(k) ==> (r matches Err(e)
                && e.kind == k),
    {
        let ghost before = self.targets@;
        let i = match self.id_index(target_id) {
            Some(i) => i,
            None => {
                return Err(not_found("no forwarding target with that id"));
            },
        };
        proof {
            assert forall|j: int| 0 <= j < before.len() && (#[trigger] before[j]).target_id == target_id implies j == i by {
                if j < i {
                    assert(before[j].target_id != before[i as int].target_id);
                } else if j > i {
                    assert(before[i as int].target_id != before[j].target_id);
                }
            }
        }
        if !self.targets[i].host.eq(requester_host) {
            return Err(forbidden("renewal must come from the target's own host"));
        }
        let renewed = ForwardingTarget {
            target_id: self.targets[i].target_id,
            host: self.targets[i].host.clone(),
            port: self.targets[i].port,
            expiration: expiry_of(now),
        };
        self.targets.set(i, renewed);
        proof {
            assert forall|a: int, b: int| 0 <= a < b < self.targets@.len() implies (#[trigger] self.targets@[a]).target_id
                != (#[trigger] self.targets@[b]).target_id && !same_address(self.targets@[a], self.targets@[b]) by {
                assert(before[a].target_id != before[b].target_id && !same_address(before[a], before[b]));
            }
        }
        Ok(())
    }

    /// Deletes every target whose expiration is at or before `now`.
    pub fn sweep(&mut self, now: u64)
        requires
            old(self).wf(),
        ensures
            final(self).wf(),
            final(self).targets() == unexpired(old(self).targets(), now),
            forall|i: int| 0 <= i < final(self).targets().len() ==> (#[trigger] final(self).targets()[i]).expiration > now,
            forall|t: ForwardingTarget| #[trigger] old(self).targets().contains(t) && t.expiration > now ==> final(self).targets().contains(t),
    {
        let kept = self.live_targets(now);
        proof {
            lemma_unexpired(self.targets@, now);
        }
        self.targets = kept;
    }
}

/// A target stays registered at most one sweep period past its expiration:
/// when the sweeper last ran no more than a period ago and a full period has
/// passed since the target expired, the last sweep removed it.
pub proof fn lemma_ttl_sweep(before: Seq<ForwardingTarget>, swept_at: u64, now: u64, t: ForwardingTarget)
    requires
        swept_at <= now,
        now <= swept_at + SWEEP_PERIOD,
        now >= t.expiration + SWEEP_PERIOD,
    ensures
        !unexpired(before, swept_at).contains(t),
{
    lemma_unexpired(before, swept_at);
    if unexpired(before, swept_at).contains(t) {
        let k = choose|k: int| 0 <= k < unexpired(before, swept_at).len() && unexpired(before, swept_at)[k] == t;
        assert(unexpired(before, swept_at)[k].expiration > swept_at);
    }
}

} // verus!
