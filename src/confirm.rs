//! The confirmation queue: pending requests persisted one per record under an
//! opaque ID, resolved at most once, reaped after their time to live.
use vstd::prelude::*;
use vstd::string::StringExecFns;
use crate::model::{deny_reply, error_reply, error_response, deny_response, ActionRequest,
    PendingConfirmation, PendingView, PolicyConfig, PolicyDecision, ResponseView,
    ActionResponse, strs_view};
use crate::pipeline::{PipelineStep, StepView};
use crate::policy::{contains_str, enforce_policy, policy_decision};
use crate::text::{decimal, decimal_string};

verus! {

/// The ID of a confirmation queued at `now` seconds and `nanos` nanoseconds:
/// `{now}-{nanos}`.
pub open spec fn confirmation_id_of(now: u64, nanos: u32) -> Seq<char> {
    decimal(now as nat) + seq!['-'] + decimal(nanos as nat)
}

/// The ID of a confirmation queued at `now` and `nanos`.
pub fn confirmation_id(now: u64, nanos: u32) -> (r: String)
    ensures
        r@ == confirmation_id_of(now, nanos),
{
    let r = decimal_string(now).concat("-").concat(decimal_string(nanos as u64).as_str());
    proof {
        reveal_strlit("-");
    }
    r
}

/// The reply to a queued request.
pub open spec fn queued_reply(id: Seq<char>) -> ResponseView {
    ResponseView {
        version: 1,
        action: "confirm"@,
        status: "confirm"@,
        message: Some("user confirmation required"@),
        capabilities: None,
        confirmation_id: Some(id),
    }
}

/// A request put aside for confirmation: its ID, the record to persist under
/// it, and the reply for the client.
#[derive(Debug, Clone)]
pub struct QueuedConfirmation {
    pub id: String,
    pub record: PendingConfirmation,
    pub response: ActionResponse,
}

/// Queues `request` at `now` (seconds) and `nanos` for `ttl` seconds.
pub fn queue_confirmation(request: &ActionRequest, now: u64, ttl: u64, nanos: u32) -> (r:
    QueuedConfirmation)
    requires
        now + ttl <= u64::MAX,
    ensures
        r.id@ == confirmation_id_of(now, nanos),
        r.record@ == (PendingView {
            created_at: now,
            expires_at: (now + ttl) as u64,
            request: request@,
        }),
        r.response@ == queued_reply(r.id@),
{
    let id = confirmation_id(now, nanos);
    let record = PendingConfirmation {
        created_at: now,
        expires_at: now + ttl,
        request: request.copied(),
    };
    let response = ActionResponse {
        version: 1,
        action: String::from_str("confirm"),
        status: String::from_str("confirm"),
        message: Some(String::from_str("user confirmation required")),
        capabilities: None,
        confirmation_id: Some(id.clone()),
    };
    QueuedConfirmation { id, record, response }
}

/// What reading the record of a confirmation ID found.
#[derive(Debug, Clone)]
pub enum ConfirmLookup {
    /// No record under that ID.
    Missing,
    /// A record that does not parse.
    Corrupt,
    Found(PendingConfirmation),
}

/// Whether a record has expired at `now`.
pub open spec fn expired(record: PendingView, now: u64) -> bool {
    now > record.expires_at
}

/// What presenting a confirmation ID leads to, given what its record held:
/// whether the record is removed, and the next step. Presenting the ID is
/// itself the confirmation, so a request that needs confirmation runs.
pub open spec fn resolution(
    policy: PolicyConfig,
    registry: Seq<Seq<char>>,
    lookup: Option<Option<PendingView>>,
    now: u64,
) -> (bool, StepView) {
    match lookup {
        None => (false, StepView::Respond(error_reply("confirm"@, "confirmation not found"@))),
        Some(None) => (
            false,
            StepView::Respond(error_reply("confirm"@, "invalid confirmation record"@)),
        ),
        Some(Some(record)) => if expired(record, now) {
            (true, StepView::Respond(error_reply("confirm"@, "confirmation expired"@)))
        } else if policy_decision(policy, record.request.name, record.request.payload)
            == PolicyDecision::Deny {
            (
                true,
                StepView::Respond(deny_reply(record.request.name, "action denied by policy"@)),
            )
        } else if registry.contains(record.request.name) {
            (true, StepView::Dispatch(record.request))
        } else {
            (true, StepView::Respond(error_reply(record.request.name, "no handler registered"@)))
        },
    }
}

pub open spec fn lookup_view(l: ConfirmLookup) -> Option<Option<PendingView>> {
    match l {
        ConfirmLookup::Missing => None,
        ConfirmLookup::Corrupt => Some(None),
        ConfirmLookup::Found(r) => Some(Some(r@)),
    }
}

/// How a presented confirmation ID resolves.
#[derive(Debug, Clone)]
pub struct ConfirmResolution {
    /// Whether the record must be deleted; the deletion is the commit point.
    pub remove_record: bool,
    pub step: PipelineStep,
}

/// Resolves a presented confirmation ID at `now`, given what its record held.
pub fn resolve_confirmation(
    policy: &PolicyConfig,
    registry: &Vec<String>,
    lookup: ConfirmLookup,
    now: u64,
) -> (r: ConfirmResolution)
    ensures
        (r.remove_record, r.step@) == resolution(
            *policy,
            strs_view(registry@),
            lookup_view(lookup),
            now,
        ),
{
    match lookup {
        ConfirmLookup::Missing => ConfirmResolution {
            remove_record: false,
            step: PipelineStep::Respond(error_response("confirm", "confirmation not found")),
        },
        ConfirmLookup::Corrupt => ConfirmResolution {
            remove_record: false,
            step: PipelineStep::Respond(error_response("confirm", "invalid confirmation record")),
        },
        ConfirmLookup::Found(record) => {
            if now > record.expires_at {
                return ConfirmResolution {
                    remove_record: true,
                    step: PipelineStep::Respond(error_response("confirm", "confirmation expired")),
                };
            }
            let decision = enforce_policy(policy, &record.request);
            if decision == PolicyDecision::Deny {
                let resp = deny_response(record.request.name.as_str(), "action denied by policy");
                return ConfirmResolution { remove_record: true, step: PipelineStep::Respond(resp) };
            }
            if contains_str(registry, record.request.name.as_str()) {
                ConfirmResolution { remove_record: true, step: PipelineStep::Dispatch(record.request) }
            } else {
                let resp = error_response(record.request.name.as_str(), "no handler registered");
                ConfirmResolution { remove_record: true, step: PipelineStep::Respond(resp) }
            }
        },
    }
}

/// The confirmation store seen as a map from ID to record.
pub open spec fn lookup_in(store: Map<Seq<char>, PendingView>, id: Seq<char>) -> Option<
    Option<PendingView>,
> {
    if store.contains_key(id) {
        Some(Some(store[id]))
    } else {
        None
    }
}

/// The store after presenting `id` at `now`.
pub open spec fn store_after_confirm(
    policy: PolicyConfig,
    registry: Seq<Seq<char>>,
    store: Map<Seq<char>, PendingView>,
    id: Seq<char>,
    now: u64,
) -> Map<Seq<char>, PendingView> {
    if resolution(policy, registry, lookup_in(store, id), now).0 {
        store.remove(id)
    } else {
        store
    }
}

/// A confirmation ID works once: after it has been presented and its record
/// resolved, presenting it again finds no record.
pub proof fn lemma_confirmation_single_use(
    policy: PolicyConfig,
    registry: Seq<Seq<char>>,
    store: Map<Seq<char>, PendingView>,
    id: Seq<char>,
    now: u64,
    later: u64,
)
    requires
        store.contains_key(id),
    ensures
        resolution(
            policy,
            registry,
            lookup_in(store_after_confirm(policy, registry, store, id, now), id),
            later,
        ) == (false, StepView::Respond(error_reply("confirm"@, "confirmation not found"@))),
{
    assert(!store_after_confirm(policy, registry, store, id, now).contains_key(id));
}

/// The IDs of the records that have expired at `now`, in order.
pub open spec fn expired_ids(records: Seq<(String, PendingConfirmation)>, now: u64) -> Seq<
    Seq<char>,
>
    decreases records.len(),
{
    if records.len() == 0 {
        Seq::<Seq<char>>::empty()
    } else {
        let rest = expired_ids(records.drop_last(), now);
        if now > records.last().1.expires_at {
            rest.push(records.last().0@)
        } else {
            rest
        }
    }
}

/// The records to delete in a reap pass at `now`: those whose expiry is past.
pub fn expired_confirmations(records: &Vec<(String, PendingConfirmation)>, now: u64) -> (r: Vec<
    String,
>)
    ensures
        strs_view(r@) == expired_ids(records@, now),
{
    let mut r: Vec<String> = Vec::new();
    let mut i: usize = 0;
    while i < records.len()
        invariant
            i <= records@.len(),
            strs_view(r@) =~= expired_ids(records@.subrange(0, i as int), now),
        decreases records@.len() - i,
    {
        assert(records@.subrange(0, i + 1).drop_last() =~= records@.subrange(0, i as int));
        if now > records[i].1.expires_at {
            let ghost prev = r@;
            r.push(records[i].0.clone());
            assert(strs_view(r@) =~= strs_view(prev).push(records@[i as int].0@));
        }
        i = i + 1;
    }
    assert(records@.subrange(0, records@.len() as int) =~= records@);
    r
}

proof fn lemma_expired_ids_complete(records: Seq<(String, PendingConfirmation)>, now: u64, i: int)
    requires
        0 <= i < records.len(),
        now > records[i].1.expires_at,
    ensures
        expired_ids(records, now).contains(records[i].0@),
    decreases records.len(),
{
    let rest = expired_ids(records.drop_last(), now);
    if i == records.len() - 1 {
        assert(expired_ids(records, now).last() == records[i].0@);
    } else {
        lemma_expired_ids_complete(records.drop_last(), now, i);
        let k = choose|k: int| 0 <= k < rest.len() && rest[k] == records[i].0@;
        if now > records.last().1.expires_at {
            assert(expired_ids(records, now)[k] == records[i].0@);
        }
    }
}

proof fn lemma_expired_ids_sound(records: Seq<(String, PendingConfirmation)>, now: u64, k: int)
    requires
        0 <= k < expired_ids(records, now).len(),
    ensures
        exists|i: int|
            0 <= i < records.len() && records[i].0@ == expired_ids(records, now)[k] && now
                > records[i].1.expires_at,
    decreases records.len(),
{
    let rest = expired_ids(records.drop_last(), now);
    if k < rest.len() {
        lemma_expired_ids_sound(records.drop_last(), now, k);
        let i = choose|i: int|
            0 <= i < records.drop_last().len() && records.drop_last()[i].0@ == rest[k] && now
                > records.drop_last()[i].1.expires_at;
        assert(records[i] == records.drop_last()[i]);
    } else {
        assert(now > records.last().1.expires_at);
        assert(records[records.len() - 1] == records.last());
    }
}

/// After a reap pass at `now` deletes what `expired_confirmations` lists, no
/// record whose expiry is before `now` is left, and every record it deletes
/// had expired.
pub proof fn lemma_reap_removes_expired(
    records: Seq<(String, PendingConfirmation)>,
    now: u64,
)
    ensures
        forall|i: int|
            0 <= i < records.len() && records[i].1.expires_at < now ==> expired_ids(
                records,
                now,
            ).contains(#[trigger] records[i].0@),
        forall|k: int|
            0 <= k < expired_ids(records, now).len() ==> exists|i: int|
                0 <= i < records.len() && records[i].0@ == #[trigger] expired_ids(records, now)[k]
                    && now > records[i].1.expires_at,
{
    assert forall|i: int| 0 <= i < records.len() && records[i].1.expires_at < now implies expired_ids(
        records,
        now,
    ).contains(#[trigger] records[i].0@) by {
        lemma_expired_ids_complete(records, now, i);
    }
    assert forall|k: int| 0 <= k < expired_ids(records, now).len() implies exists|i: int|
        0 <= i < records.len() && records[i].0@ == #[trigger] expired_ids(records, now)[k] && now
            > records[i].1.expires_at by {
        lemma_expired_ids_sound(records, now, k);
    }
}

} // verus!
