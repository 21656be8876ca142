//! The reconciler: the hostnames whose identifiers were resolved, the persisted
//! state, and the decisions of each polling cycle.
//!
//! A cycle runs as follows. Once the current IP has been probed, each target is
//! taken in order: where `needs_update` holds, the update that
//! `update_request` describes is sent to `update_url`, and its outcome is handed
//! to `record_outcome`. After the last target the state is written back once.
//! A failed probe skips the whole cycle and changes nothing.

use vstd::prelude::*;
use crate::api::{dns_record_url, ZONES_URL};
use crate::state::{IpState, parsed_string_map, state_of_text};
use crate::update::{
    build_update_request,
    reply_succeeded,
    DnsUpdateRequest,
    UpdateError,
    UpdateResponse,
    AUTO_TTL,
    RECORD_TYPE,
};

verus! {

/// One DNS record to keep in sync, as configured.
pub struct RecordSpec {
    pub hostname: String,
    pub proxied: bool,
}

/// A configured record whose zone and record identifiers were resolved.
pub struct Target {
    pub hostname: String,
    pub proxied: bool,
    pub zone_id: String,
    pub record_id: String,
}

/// The reconciler as a mathematical value: its targets, in configuration order,
/// and the last IP applied for each hostname.
pub ghost struct ReconcilerView {
    pub targets: Seq<Target>,
    pub state: Map<Seq<char>, Seq<char>>,
}

impl ReconcilerView {
    /// Target `i` is stale for the probed `ip`: its hostname has no last-known
    /// IP, or another one.
    pub open spec fn needs_update(self, i: int, ip: Seq<char>) -> bool {
        let h = self.targets[i].hostname@;
        !(self.state.contains_key(h) && self.state[h] == ip)
    }

    /// The reconciler after an update of target `i` to `ip`: the state records
    /// `ip` for its hostname where the update succeeded, and is unchanged
    /// otherwise.
    pub open spec fn after_update(self, i: int, ip: Seq<char>, succeeded: bool) -> ReconcilerView {
        if succeeded {
            ReconcilerView {
                targets: self.targets,
                state: self.state.insert(self.targets[i].hostname@, ip),
            }
        } else {
            self
        }
    }
}

/// The reconciliation set and the persisted state.
pub struct Reconciler {
    targets: Vec<Target>,
    state: IpState,
}

impl View for Reconciler {
    type V = ReconcilerView;

    closed spec fn view(&self) -> ReconcilerView {
        ReconcilerView { targets: self.targets@, state: self.state@ }
    }
}

impl Reconciler {
    /// The persisted state is well formed.
    pub closed spec fn wf(&self) -> bool {
        self.state.wf()
    }

    /// A reconciler with no targets yet, starting from `state`.
    pub fn new(state: IpState) -> (r: Reconciler)
        requires
            state.wf(),
        ensures
            r.wf(),
            r@.targets.len() == 0,
            r@.state == state@,
    {
        Reconciler { targets: Vec::new(), state }
    }

    /// Adds a record whose identifiers were resolved to the end of the
    /// reconciliation set. Only resolved records ever take part in a cycle.
    pub fn add_target(&mut self, spec: &RecordSpec, zone_id: String, record_id: String)
        requires
            old(self).wf(),
        ensures
            final(self).wf(),
            final(self)@.state == old(self)@.state,
            final(self)@.targets.len() == old(self)@.targets.len() + 1,
            final(self)@.targets.drop_last() == old(self)@.targets,
            final(self)@.targets.last().hostname@ == spec.hostname@,
            final(self)@.targets.last().proxied == spec.proxied,
            final(self)@.targets.last().zone_id@ == zone_id@,
            final(self)@.targets.last().record_id@ == record_id@,
    {
        self.targets.push(
            Target { hostname: spec.hostname.clone(), proxied: spec.proxied, zone_id, record_id },
        );
        proof {
            assert(self@.targets.drop_last() =~= old(self)@.targets);
        }
    }

    /// The number of targets.
    pub fn target_count(&self) -> (r: usize)
        ensures
            r == self@.targets.len(),
    {
        self.targets.len()
    }

    /// Target `i`.
    pub fn target(&self, i: usize) -> (r: &Target)
        requires
            i < self@.targets.len(),
        ensures
            *r == self@.targets[i as int],
    {
        &self.targets[i]
    }

    /// The persisted state, to be written back at the end of a cycle.
    pub fn state(&self) -> (r: &IpState)
        requires
            self.wf(),
        ensures
            r.wf(),
            r@ == self@.state,
    {
        &self.state
    }

    /// Whether target `i` must be updated for the probed `ip`: exactly where
    /// the persisted IP of its hostname is missing or differs from `ip`.
    pub fn needs_update(&self, i: usize, ip: &str) -> (r: bool)
        requires
            self.wf(),
            i < self@.targets.len(),
        ensures
            r == self@.needs_update(i as int, ip@),
    {
        match self.state.get(self.targets[i].hostname.as_str()) {
            None => true,
            Some(last) => {
                let probed = String::from_str(ip);
                !(last == probed)
            },
        }
    }

    /// The body of the update that sets target `i` to `ip`.
    pub fn update_request(&self, i: usize, ip: &str) -> (r: DnsUpdateRequest)
        requires
            i < self@.targets.len(),
        ensures
            r.record_type@ == RECORD_TYPE@,
            r.name@ == self@.targets[i as int].hostname@,
            r.content@ == ip@,
            r.ttl == AUTO_TTL,
            r.proxied == self@.targets[i as int].proxied,
    {
        let t = &self.targets[i];
        build_update_request(t.hostname.as_str(), ip, t.proxied)
    }

    /// The endpoint that the update of target `i` is sent to.
    pub fn update_url(&self, i: usize) -> (r: String)
        requires
            i < self@.targets.len(),
        ensures
            r@ == ZONES_URL@ + "/"@ + self@.targets[i as int].zone_id@ + "/dns_records"@ + "/"@
                + self@.targets[i as int].record_id@,
    {
        let t = &self.targets[i];
        dns_record_url(t.zone_id.as_str(), t.record_id.as_str())
    }

    /// Takes in the outcome of the update of target `i` to `ip`: on success the
    /// state records `ip` for its hostname; on failure nothing changes, so the
    /// next cycle tries again.
    pub fn record_outcome(&mut self, i: usize, ip: &str, outcome: &Result<(), UpdateError>)
        requires
            old(self).wf(),
            i < old(self)@.targets.len(),
        ensures
            final(self).wf(),
            final(self)@ == old(self)@.after_update(i as int, ip@, outcome is Ok),
    {
        if outcome.is_ok() {
            let h = self.targets[i].hostname.clone();
            self.state.set(h.as_str(), ip);
        }
    }
}

/// A hostname in sync with the probed IP stays in sync whatever the outcome of
/// any update in the same cycle, so it is never updated in that cycle.
pub proof fn lemma_in_sync_stays_quiet(
    r: ReconcilerView,
    i: int,
    j: int,
    ip: Seq<char>,
    succeeded: bool,
)
    requires
        0 <= i < r.targets.len(),
        0 <= j < r.targets.len(),
        !r.needs_update(j, ip),
    ensures
        !r.after_update(i, ip, succeeded).needs_update(j, ip),
{
}

/// After a successful update of a target to `ip`, the state records `ip` for
/// its hostname, and a later cycle with the same probed IP does not update it.
pub proof fn lemma_applied_update_settles(r: ReconcilerView, i: int, ip: Seq<char>)
    requires
        0 <= i < r.targets.len(),
    ensures
        r.after_update(i, ip, true).state[r.targets[i].hostname@] == ip,
        !r.after_update(i, ip, true).needs_update(i, ip),
{
}

/// Where the persisted state could not be read, or its text is not a JSON
/// object of strings, every target is updated in the first cycle that probes
/// an IP.
pub proof fn lemma_unusable_state_updates_all(
    targets: Seq<Target>,
    text: Option<Seq<char>>,
    ip: Seq<char>,
)
    requires
        text matches Some(t) ==> parsed_string_map(t) is None,
    ensures
        forall|i: int|
            0 <= i < targets.len() ==> (ReconcilerView {
                targets,
                state: state_of_text(text),
            }).needs_update(i, ip),
{
}

/// An answer with an explicit failure indicator is no success: the state stays
/// as it was and the same target is updated to the same IP in the next cycle.
pub proof fn lemma_rejected_update_retries(
    r: ReconcilerView,
    i: int,
    ip: Seq<char>,
    resp: UpdateResponse,
)
    requires
        0 <= i < r.targets.len(),
        r.needs_update(i, ip),
        !resp.success,
    ensures
        !reply_succeeded(Ok(resp)),
        r.after_update(i, ip, reply_succeeded(Ok(resp))) == r,
        r.after_update(i, ip, reply_succeeded(Ok(resp))).needs_update(i, ip),
{
}

} // verus!
