//! The tamper-evident audit chain: each record carries its sequence number,
//! the chain hash of the record before it, and its own chain hash
//! `SHA-256(seq "|" prev_hash "|" event)` in lowercase hex.
use vstd::prelude::*;
use vstd::string::{StringExecFns, StringSliceAdditionalSpecFns};
use vstd::utf8::encode_utf8;
use sha2::Digest;
use crate::model::{opt_str_view, ActionRequest, ActionResponse};
use crate::text::{decimal, decimal_string};

verus! {

/// The SHA-256 digest of `data`.
pub uninterp spec fn sha256_of(data: Seq<u8>) -> Seq<u8>;

/// Relies on `sha2::Sha256::digest`: the 32-byte SHA-256 digest of the input,
/// a function of the input alone.
#[verifier::external_body]
fn sha256_digest(data: &[u8]) -> (r: Vec<u8>)
    ensures
        r@ == sha256_of(data@),
        r@.len() == 32,
{
    sha2::Sha256::digest(data).to_vec()
}

pub open spec fn hex_digit(n: u8) -> char {
    if n < 10 {
        (n + 48) as u8 as char
    } else {
        (n + 87) as u8 as char
    }
}

/// Lowercase hexadecimal, two digits per byte, high nibble first.
pub open spec fn hex_lower(b: Seq<u8>) -> Seq<char>
    decreases b.len(),
{
    if b.len() == 0 {
        Seq::<char>::empty()
    } else {
        hex_lower(b.drop_last()) + seq![hex_digit(b.last() / 16), hex_digit(b.last() % 16)]
    }
}

/// Relies on `hex::encode`: each byte becomes two lowercase hex digits, high
/// nibble first, in order.
#[verifier::external_body]
fn hex_encode(b: &[u8]) -> (r: String)
    ensures
        r@ == hex_lower(b@),
{
    hex::encode(b)
}

pub open spec fn bar() -> Seq<char> {
    seq!['|']
}

/// The text that the chain hash covers.
pub open spec fn chain_input(seq: u64, prev_hash: Seq<char>, event_json: Seq<char>) -> Seq<char> {
    decimal(seq as nat) + bar() + prev_hash + bar() + event_json
}

/// The chain hash of a record.
pub open spec fn chain_hash(seq: u64, prev_hash: Seq<char>, event_json: Seq<char>) -> Seq<char> {
    hex_lower(sha256_of(encode_utf8(chain_input(seq, prev_hash, event_json))))
}

/// `SHA-256(seq "|" prev_hash "|" event_json)`, hex-encoded.
pub fn compute_chain_hash_sha256(seq: u64, prev_hash: &str, event_json: &str) -> (r: String)
    ensures
        r@ == chain_hash(seq, prev_hash@, event_json@),
{
    let input = decimal_string(seq).concat("|").concat(prev_hash).concat("|").concat(event_json);
    proof {
        reveal_strlit("|");
        assert(input@ =~= chain_input(seq, prev_hash@, event_json@));
    }
    let digest = sha256_digest(input.as_str().as_bytes());
    hex_encode(digest.as_slice())
}

/// The chain hash of the audit log.
pub fn compute_chain_hash(seq: u64, prev_hash: &str, event_json: &str) -> (r: String)
    ensures
        r@ == chain_hash(seq, prev_hash@, event_json@),
{
    compute_chain_hash_sha256(seq, prev_hash, event_json)
}

/// Identical inputs give identical chain hashes.
pub proof fn lemma_chain_hash_deterministic(
    seq1: u64,
    prev1: Seq<char>,
    event1: Seq<char>,
    seq2: u64,
    prev2: Seq<char>,
    event2: Seq<char>,
)
    requires
        seq1 == seq2,
        prev1 == prev2,
        event1 == event2,
    ensures
        chain_hash(seq1, prev1, event1) == chain_hash(seq2, prev2, event2),
{
}

/// A value of an audit record field.
#[derive(Debug, Clone)]
pub enum AuditValue {
    Text(String),
    Number(u64),
    Flag(bool),
    Null,
}

pub enum AuditValueView {
    Text(Seq<char>),
    Number(u64),
    Flag(bool),
    Null,
}

impl View for AuditValue {
    type V = AuditValueView;

    open spec fn view(&self) -> AuditValueView {
        match self {
            AuditValue::Text(s) => AuditValueView::Text(s@),
            AuditValue::Number(n) => AuditValueView::Number(*n),
            AuditValue::Flag(b) => AuditValueView::Flag(*b),
            AuditValue::Null => AuditValueView::Null,
        }
    }
}

pub open spec fn fields_view(fields: Seq<(String, AuditValue)>) -> Seq<(Seq<char>, AuditValueView)> {
    fields.map_values(|f: (String, AuditValue)| (f.0@, f.1@))
}

/// An audit event: a JSON object given as its fields, in order; a later
/// field of the same name replaces an earlier one.
#[derive(Debug, Clone)]
pub struct AuditEvent {
    pub fields: Vec<(String, AuditValue)>,
}

impl View for AuditEvent {
    type V = Seq<(Seq<char>, AuditValueView)>;

    open spec fn view(&self) -> Seq<(Seq<char>, AuditValueView)> {
        fields_view(self.fields@)
    }
}

/// The compact JSON text of the object with `fields`.
pub uninterp spec fn json_object_text(fields: Seq<(Seq<char>, AuditValueView)>) -> Seq<char>;

/// Relies on `serde_json`'s serialization of a `serde_json::Map`: the text is
/// a function of the fields alone.
#[verifier::external_body]
fn object_json(fields: &Vec<(String, AuditValue)>) -> (r: String)
    ensures
        r@ == json_object_text(fields_view(fields@)),
{
    let mut map = serde_json::Map::new();
    for (k, v) in fields.iter() {
        let value = match v {
            AuditValue::Text(s) => serde_json::Value::from(s.clone()),
            AuditValue::Number(n) => serde_json::Value::from(*n),
            AuditValue::Flag(b) => serde_json::Value::from(*b),
            AuditValue::Null => serde_json::Value::Null,
        };
        map.insert(k.clone(), value);
    }
    serde_json::Value::Object(map).to_string()
}

impl AuditEvent {
    /// The JSON text of this event.
    pub fn to_json(&self) -> (r: String)
        ensures
            r@ == json_object_text(self@),
    {
        object_json(&self.fields)
    }

    fn with_field(&self, key: &str, value: AuditValue) -> (r: AuditEvent)
        ensures
            r@ == self@.push((key@, value@)),
    {
        let mut fields: Vec<(String, AuditValue)> = Vec::new();
        let mut i: usize = 0;
        while i < self.fields.len()
            invariant
                i <= self.fields@.len(),
                fields_view(fields@) =~= fields_view(self.fields@.subrange(0, i as int)),
            decreases self.fields@.len() - i,
        {
            let k = self.fields[i].0.clone();
            let v = copy_value(&self.fields[i].1);
            let ghost prev = fields@;
            fields.push((k, v));
            assert(fields_view(fields@) =~= fields_view(prev).push(
                (self.fields@[i as int].0@, self.fields@[i as int].1@),
            ));
            assert(self.fields@.subrange(0, i + 1) =~= self.fields@.subrange(0, i as int).push(
                self.fields@[i as int],
            ));
            i = i + 1;
        }
        assert(self.fields@.subrange(0, self.fields@.len() as int) =~= self.fields@);
        let ghost prev = fields@;
        fields.push((String::from_str(key), value));
        assert(fields_view(fields@) =~= fields_view(prev).push((key@, value@)));
        AuditEvent { fields }
    }
}

fn copy_value(v: &AuditValue) -> (r: AuditValue)
    ensures
        r@ == v@,
{
    match v {
        AuditValue::Text(s) => AuditValue::Text(s.clone()),
        AuditValue::Number(n) => AuditValue::Number(*n),
        AuditValue::Flag(b) => AuditValue::Flag(*b),
        AuditValue::Null => AuditValue::Null,
    }
}

pub struct ChainView {
    pub seq: u64,
    pub last_hash: Seq<char>,
}

/// The running state of the chain: the last sequence number and chain hash.
#[derive(Debug, Clone)]
pub struct AuditChainState {
    pub seq: u64,
    pub last_hash: String,
}

impl View for AuditChainState {
    type V = ChainView;

    open spec fn view(&self) -> ChainView {
        ChainView { seq: self.seq, last_hash: self.last_hash@ }
    }
}

pub open spec fn genesis_hash() -> Seq<char> {
    "genesis_sha256"@
}

impl AuditChainState {
    /// The state of an empty chain.
    pub fn initial() -> (r: AuditChainState)
        ensures
            r@ == (ChainView { seq: 0, last_hash: genesis_hash() }),
    {
        AuditChainState { seq: 0, last_hash: String::from_str("genesis_sha256") }
    }
}

pub struct RecordView {
    pub seq: u64,
    pub prev_hash: Seq<char>,
    pub chain_hash: Seq<char>,
    /// The fields as written to the log, `chain_hash` included.
    pub fields: Seq<(Seq<char>, AuditValueView)>,
}

/// One appended record and the line that holds it in the log.
#[derive(Debug, Clone)]
pub struct AuditRecord {
    pub seq: u64,
    pub prev_hash: String,
    pub chain_hash: String,
    /// The record's JSON text followed by a newline.
    pub line: String,
}

pub open spec fn next_seq(seq: u64) -> u64 {
    if seq < u64::MAX {
        (seq + 1) as u64
    } else {
        seq
    }
}

/// Appending `event` to a chain in state `s`: the record and the next state.
/// The record's number is one more than the state's (saturating); its
/// `prev_hash` is the state's last hash; its chain hash covers the event with
/// `seq` and `prev_hash` added.
pub open spec fn audit_step(s: ChainView, event: Seq<(Seq<char>, AuditValueView)>) -> (
    ChainView,
    RecordView,
) {
    let n = next_seq(s.seq);
    let linked = event.push(("seq"@, AuditValueView::Number(n))).push(
        ("prev_hash"@, AuditValueView::Text(s.last_hash)),
    );
    let h = chain_hash(n, s.last_hash, json_object_text(linked));
    let written = linked.push(("chain_hash"@, AuditValueView::Text(h)));
    (
        ChainView { seq: n, last_hash: h },
        RecordView { seq: n, prev_hash: s.last_hash, chain_hash: h, fields: written },
    )
}

impl AuditRecord {
    pub open spec fn matches(&self, r: RecordView) -> bool {
        &&& self.seq == r.seq
        &&& self.prev_hash@ == r.prev_hash
        &&& self.chain_hash@ == r.chain_hash
        &&& self.line@ == json_object_text(r.fields) + seq!['\n']
    }
}

/// Appends `event` to the chain: returns the record, whose `line` is what
/// goes at the end of the log, and advances `state` to it.
pub fn append_audit_record(state: &mut AuditChainState, event: &AuditEvent) -> (r: AuditRecord)
    ensures
        final(state)@ == audit_step(old(state)@, event@).0,
        r.matches(audit_step(old(state)@, event@).1),
{
    let n = state.seq.saturating_add(1);
    let prev_hash = state.last_hash.clone();
    let linked = event.with_field("seq", AuditValue::Number(n)).with_field(
        "prev_hash",
        AuditValue::Text(state.last_hash.clone()),
    );
    let event_json = linked.to_json();
    let h = compute_chain_hash(n, prev_hash.as_str(), event_json.as_str());
    let written = linked.with_field("chain_hash", AuditValue::Text(h.clone()));
    let line = written.to_json().concat("\n");
    proof {
        reveal_strlit("\n");
        let step = audit_step(old(state)@, event@);
        assert(n == step.1.seq);
        assert(linked@ == event@.push(("seq"@, AuditValueView::Number(n))).push(
            ("prev_hash"@, AuditValueView::Text(prev_hash@)),
        ));
        assert(h@ == step.1.chain_hash);
        assert(written@ == step.1.fields);
        assert(line@ =~= json_object_text(step.1.fields) + seq!['\n']);
    }
    state.seq = n;
    state.last_hash = h.clone();
    AuditRecord { seq: n, prev_hash, chain_hash: h, line }
}

/// The records that appending `events` in order to a chain in state `s`
/// produces.
pub open spec fn audit_run(s: ChainView, events: Seq<Seq<(Seq<char>, AuditValueView)>>) -> (
    ChainView,
    Seq<RecordView>,
)
    decreases events.len(),
{
    if events.len() == 0 {
        (s, Seq::<RecordView>::empty())
    } else {
        let (mid, records) = audit_run(s, events.drop_last());
        let (end, r) = audit_step(mid, events.last());
        (end, records.push(r))
    }
}

proof fn lemma_audit_run_shape(s: ChainView, events: Seq<Seq<(Seq<char>, AuditValueView)>>)
    requires
        s.seq + events.len() <= u64::MAX,
    ensures
        audit_run(s, events).1.len() == events.len(),
        audit_run(s, events).0.seq == s.seq + events.len(),
        events.len() > 0 ==> audit_run(s, events).0.last_hash == audit_run(
            s,
            events,
        ).1.last().chain_hash,
        events.len() > 0 ==> audit_run(s, events).0.seq == audit_run(s, events).1.last().seq,
        forall|i: int|
            0 <= i < events.len() ==> (#[trigger] audit_run(s, events).1[i]).seq == s.seq + i + 1,
        forall|i: int|
            0 <= i < events.len() - 1 ==> (#[trigger] audit_run(s, events).1[i + 1]).prev_hash
                == audit_run(s, events).1[i].chain_hash,
        events.len() > 0 ==> audit_run(s, events).1[0].prev_hash == s.last_hash,
    decreases events.len(),
{
    if events.len() > 0 {
        let prefix = events.drop_last();
        lemma_audit_run_shape(s, prefix);
        let (mid, records) = audit_run(s, prefix);
        let all = audit_run(s, events).1;
        assert(all == records.push(audit_step(mid, events.last()).1));
        assert forall|i: int| 0 <= i < events.len() - 1 implies (#[trigger] all[i + 1]).prev_hash
            == all[i].chain_hash by {
            if i + 1 < prefix.len() {
                assert(all[i + 1] == records[i + 1]);
            } else {
                if prefix.len() > 0 {
                    assert(all[i] == records.last());
                }
            }
        }
    }
}

/// Along a log, each record's number is one more than the one before, and
/// its `prev_hash` is the chain hash of the one before.
pub proof fn lemma_chain_monotonic(s: ChainView, events: Seq<Seq<(Seq<char>, AuditValueView)>>)
    requires
        s.seq + events.len() <= u64::MAX,
    ensures
        forall|i: int|
            0 <= i < events.len() - 1 ==> (#[trigger] audit_run(s, events).1[i + 1]).seq
                == audit_run(s, events).1[i].seq + 1 && audit_run(s, events).1[i + 1].prev_hash
                == audit_run(s, events).1[i].chain_hash,
{
    lemma_audit_run_shape(s, events);
    let rs = audit_run(s, events).1;
    assert forall|i: int| 0 <= i < events.len() - 1 implies (#[trigger] rs[i + 1]).seq == rs[i].seq
        + 1 && rs[i + 1].prev_hash == rs[i].chain_hash by {
        assert(rs[i].seq == s.seq + i + 1);
        assert(rs[i + 1].seq == s.seq + (i + 1) + 1);
    }
}

/// Whether the log, `size` bytes long when its size could be read, is due
/// for rotation at `threshold` bytes (0 disables rotation).
pub open spec fn rotation_due(threshold: u64, size: Option<u64>) -> bool {
    threshold != 0 && size is Some && size->0 >= threshold
}

/// Whether to rotate the log before the next append.
pub fn should_rotate(threshold: u64, size: Option<u64>) -> (r: bool)
    ensures
        r == rotation_due(threshold, size),
{
    match size {
        Some(n) => threshold != 0 && n >= threshold,
        None => false,
    }
}

/// The name the log is archived under: `{log}.{unix_secs}.jsonl`.
pub open spec fn archive_name(log_path: Seq<char>, now: u64) -> Seq<char> {
    log_path + seq!['.'] + decimal(now as nat) + seq!['.', 'j', 's', 'o', 'n', 'l']
}

/// The name the log at `log_path` is archived under at `now`.
pub fn rotated_log_path(log_path: &str, now: u64) -> (r: String)
    ensures
        r@ == archive_name(log_path@, now),
{
    let r = String::from_str(log_path).concat(".").concat(decimal_string(now).as_str()).concat(
        ".jsonl",
    );
    proof {
        reveal_strlit(".");
        reveal_strlit(".jsonl");
    }
    r
}

/// The fields of the anchor that opens a log after rotation.
pub open spec fn anchor_fields(now: u64, rotated_file: Seq<char>) -> Seq<(Seq<char>, AuditValueView)> {
    seq![
        ("ts"@, AuditValueView::Number(now)),
        ("type"@, AuditValueView::Text("rotation_anchor"@)),
        ("rotated_file"@, AuditValueView::Text(rotated_file)),
    ]
}

/// The event that opens a new log, naming the archived one.
pub fn rotation_anchor_event(now: u64, rotated_file: &str) -> (r: AuditEvent)
    ensures
        r@ == anchor_fields(now, rotated_file@),
{
    let mut fields: Vec<(String, AuditValue)> = Vec::new();
    fields.push((String::from_str("ts"), AuditValue::Number(now)));
    fields.push(
        (String::from_str("type"), AuditValue::Text(String::from_str("rotation_anchor"))),
    );
    fields.push((String::from_str("rotated_file"), AuditValue::Text(String::from_str(rotated_file))));
    let r = AuditEvent { fields };
    assert(r@ =~= anchor_fields(now, rotated_file@));
    r
}

/// After rotation the new log opens with a `rotation_anchor` record whose
/// `prev_hash` is the chain hash of the archived log's last record.
pub proof fn lemma_rotation_continuity(
    s: ChainView,
    last_event: Seq<(Seq<char>, AuditValueView)>,
    now: u64,
    rotated_file: Seq<char>,
)
    ensures
        ({
            let (mid, last) = audit_step(s, last_event);
            let anchor = audit_step(mid, anchor_fields(now, rotated_file)).1;
            &&& anchor.prev_hash == last.chain_hash
            &&& anchor.fields.contains(("type"@, AuditValueView::Text("rotation_anchor"@)))
            &&& anchor.fields.contains(("rotated_file"@, AuditValueView::Text(rotated_file)))
        }),
{
    let (mid, last) = audit_step(s, last_event);
    let anchor = audit_step(mid, anchor_fields(now, rotated_file)).1;
    assert(anchor.fields[1] == ("type"@, AuditValueView::Text("rotation_anchor"@)));
    assert(anchor.fields[2] == ("rotated_file"@, AuditValueView::Text(rotated_file)));
}

/// Relies on `std::hash::BuildHasher::hash_one` with the standard library's
/// default hasher: a fingerprint of the payload; nothing is claimed of it.
#[verifier::external_body]
fn payload_fingerprint(text: &str) -> u64 {
    std::hash::BuildHasher::hash_one(
        &std::hash::BuildHasherDefault::<std::collections::hash_map::DefaultHasher>::default(),
        text,
    )
}

pub open spec fn opt_text_value(o: Option<Seq<char>>) -> AuditValueView {
    match o {
        Some(s) => AuditValueView::Text(s),
        None => AuditValueView::Null,
    }
}

/// The fields of the `action_outcome` record of a request and its response,
/// all but the payload fingerprint, which is `Null` when there is no payload.
pub open spec fn outcome_fields_ok(
    fields: Seq<(Seq<char>, AuditValueView)>,
    req: ActionRequest,
    resp: ActionResponse,
    now: u64,
) -> bool {
    &&& fields.len() == 9
    &&& fields[0] == ("ts"@, AuditValueView::Number(now))
    &&& fields[1] == ("type"@, AuditValueView::Text("action_outcome"@))
    &&& fields[2] == ("action"@, AuditValueView::Text(req.name@))
    &&& fields[3] == ("status"@, AuditValueView::Text(resp.status@))
    &&& fields[4] == ("message"@, opt_text_value(opt_str_view(resp.message)))
    &&& fields[5] == ("request_version"@, AuditValueView::Number(
        match req.version {
            Some(v) => v as u64,
            None => 1,
        },
    ))
    &&& fields[6] == ("has_confirmation_id"@, AuditValueView::Flag(resp.confirmation_id is Some))
    &&& fields[7] == ("payload_len"@, AuditValueView::Number(
        match req.payload {
            Some(p) => encode_utf8(p@).len() as u64,
            None => 0,
        },
    ))
    &&& fields[8].0 == "payload_hash"@
    &&& (req.payload is None <==> fields[8].1 == AuditValueView::Null)
    &&& (req.payload is Some ==> fields[8].1 is Number)
}

/// The `action_outcome` event for a request and its response. The payload
/// itself is never recorded: only its length in bytes and a fingerprint.
pub fn action_outcome_event(
    request: &ActionRequest,
    response: &ActionResponse,
    now: u64,
) -> (r: AuditEvent)
    ensures
        outcome_fields_ok(r@, *request, *response, now),
{
    let mut fields: Vec<(String, AuditValue)> = Vec::new();
    fields.push((String::from_str("ts"), AuditValue::Number(now)));
    fields.push((String::from_str("type"), AuditValue::Text(String::from_str("action_outcome"))));
    fields.push((String::from_str("action"), AuditValue::Text(request.name.clone())));
    fields.push((String::from_str("status"), AuditValue::Text(response.status.clone())));
    let message = match &response.message {
        Some(m) => AuditValue::Text(m.clone()),
        None => AuditValue::Null,
    };
    fields.push((String::from_str("message"), message));
    let version: u64 = match request.version {
        Some(v) => v as u64,
        None => 1,
    };
    fields.push((String::from_str("request_version"), AuditValue::Number(version)));
    fields.push(
        (
            String::from_str("has_confirmation_id"),
            AuditValue::Flag(response.confirmation_id.is_some()),
        ),
    );
    let (len, hash) = match &request.payload {
        Some(p) => {
            let bytes = p.as_str().as_bytes().len() as u64;
            (bytes, AuditValue::Number(payload_fingerprint(p.as_str())))
        },
        None => (0, AuditValue::Null),
    };
    fields.push((String::from_str("payload_len"), AuditValue::Number(len)));
    fields.push((String::from_str("payload_hash"), hash));
    AuditEvent { fields }
}

} // verus!
