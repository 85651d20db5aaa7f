//! What the replay sandbox hands to the Soroban host and takes back from
//! it: the ledger and TTL entries of a transaction's footprint, and the
//! ledger entries after the host's changes.
//!
//! Ledger keys are held as the base64 text of their XDR, entries as their
//! XDR bytes. Around the host's run: the limits of its budget, its seed,
//! the trace events it reports, and the result assembled from its outcome.
use vstd::prelude::*;
use base64::Engine;
use stellar_xdr::curr::{Limits, TtlEntry, WriteXdr};
use vstd::string::StringSliceAdditionalSpecFns;
use crate::cache::{sha256, sha256_of};
use crate::error::{GratError, GratResult};
use crate::events::DiagnosticEventData;
use crate::json::{obj_insert, Json, JsonV};
use crate::key_map::KeyMap;
use crate::replay::{classified, classify_trace_event, HostTraceKind, TraceEventType};
use crate::text::append;

verus! {

/// The bytes of a base64 text, or the decoder's message when it is not
/// base64 (standard alphabet, padded).
pub uninterp spec fn base64_decoded(text: Seq<char>) -> Result<Seq<u8>, Seq<char>>;

/// The character of a six-bit value in the standard base64 alphabet.
pub open spec fn base64_digit(v: int) -> char {
    if v < 26 {
        (('A' as int) + v) as char
    } else if v < 52 {
        (('a' as int) + v - 26) as char
    } else if v < 62 {
        (('0' as int) + v - 52) as char
    } else if v == 62 {
        '+'
    } else {
        '/'
    }
}

/// The base64 text of some bytes (standard alphabet, padded): each group of
/// three bytes gives four characters, and a last group of one or two bytes
/// gives two or three characters padded with `=` to four.
pub open spec fn base64_text(bytes: Seq<u8>) -> Seq<char>
    decreases bytes.len(),
{
    if bytes.len() == 0 {
        Seq::empty()
    } else if bytes.len() == 1 {
        let a = bytes[0] as int;
        seq![base64_digit(a / 4), base64_digit((a % 4) * 16), '=', '=']
    } else if bytes.len() == 2 {
        let a = bytes[0] as int;
        let b = bytes[1] as int;
        seq![base64_digit(a / 4), base64_digit((a % 4) * 16 + b / 16), base64_digit((b % 16) * 4), '=']
    } else {
        let a = bytes[0] as int;
        let b = bytes[1] as int;
        let c = bytes[2] as int;
        seq![
            base64_digit(a / 4),
            base64_digit((a % 4) * 16 + b / 16),
            base64_digit((b % 16) * 4 + c / 64),
            base64_digit(c % 64),
        ] + base64_text(bytes.subrange(3, bytes.len() as int))
    }
}

/// Decodes base64 text (`base64::engine::general_purpose::STANDARD.decode`).
///
/// Trusted: the bytes, or the error's message, depend on the text alone.
#[verifier::external_body]
pub(crate) fn decode_base64(text: &str) -> (r: Result<Vec<u8>, String>)
    ensures
        match base64_decoded(text@) {
            Ok(b) => r matches Ok(v) && v@ == b,
            Err(m) => r matches Err(e) && e@ == m,
        },
{
    match base64::engine::general_purpose::STANDARD.decode(text) {
        Ok(bytes) => Ok(bytes),
        Err(e) => Err(e.to_string()),
    }
}

/// Encodes bytes as base64 text (`base64::engine::general_purpose::STANDARD.encode`).
///
/// Trusted: the text is the standard, padded base64 encoding of the bytes,
/// as the crate documents its `STANDARD` engine.
#[verifier::external_body]
pub(crate) fn encode_base64(bytes: &[u8]) -> (r: String)
    ensures
        r@ == base64_text(bytes@),
{
    base64::engine::general_purpose::STANDARD.encode(bytes)
}

/// The four big-endian bytes of a `u32`.
pub open spec fn be32(x: u32) -> Seq<u8> {
    seq![(x / 0x1000000) as u8, ((x / 0x10000) % 256) as u8, ((x / 256) % 256) as u8, (x % 256) as u8]
}

/// The XDR of a TTL entry (`TtlEntry::to_xdr` of `stellar-xdr`, without
/// limits).
///
/// Trusted: the XDR of a `TtlEntry` is its 32-byte key hash followed by its
/// live-until ledger as a big-endian `u32`, and writing it into memory
/// without limits does not fail.
#[verifier::external_body]
fn ttl_entry_xdr(key_hash: [u8; 32], live_until_ledger_seq: u32) -> (r: Result<Vec<u8>, String>)
    ensures
        r is Ok,
        r->Ok_0@ == key_hash@ + be32(live_until_ledger_seq),
{
    let entry = TtlEntry { key_hash: stellar_xdr::curr::Hash(key_hash), live_until_ledger_seq };
    match entry.to_xdr(Limits::none()) {
        Ok(bytes) => Ok(bytes),
        Err(e) => Err(e.to_string()),
    }
}

/// The TTL entry of a ledger key given as base64: the SHA-256 of the key's
/// XDR and the ledger it lives until; the decoder's message when the key
/// is not base64.
pub open spec fn ttl_entry_bytes(key_b64: Seq<char>, live_until: u32) -> Result<Seq<u8>, Seq<char>> {
    match base64_decoded(key_b64) {
        Ok(key) => Ok(sha256_of(key) + be32(live_until)),
        Err(m) => Err(m),
    }
}

/// The error for a ledger key that is not base64.
pub open spec fn is_key_error(e: GratError, message: Seq<char>) -> bool {
    e matches GratError::XdrDecodingFailed { xdr_type, reason } && xdr_type@ == "LedgerKey"@ && reason@
        == "invalid base64: "@ + message
}

/// Encodes the TTL entry of a ledger key given as base64.
pub fn encode_ttl_entry(key_b64: &str, live_until_ledger_seq: u32) -> (r: GratResult<Vec<u8>>)
    ensures
        match ttl_entry_bytes(key_b64@, live_until_ledger_seq) {
            Ok(b) => r matches Ok(v) && v@ == b,
            Err(m) => r matches Err(e) && is_key_error(e, m),
        },
{
    let key_bytes = match decode_base64(key_b64) {
        Ok(b) => b,
        Err(m) => {
            let mut reason = String::from_str("invalid base64: ");
            append(&mut reason, m.as_str());
            return Err(GratError::XdrDecodingFailed { xdr_type: String::from_str("LedgerKey"), reason });
        },
    };
    let key_hash = sha256(key_bytes.as_slice());
    match ttl_entry_xdr(key_hash, live_until_ledger_seq) {
        Ok(b) => Ok(b),
        Err(m) => Err(GratError::XdrDecodingFailed { xdr_type: String::from_str("TtlEntry"), reason: m }),
    }
}

/// The bytes of each entry of a map.
pub open spec fn bytes_map(m: Map<Seq<char>, Vec<u8>>) -> Map<Seq<char>, Seq<u8>> {
    m.map_values(|v: Vec<u8>| v@)
}

/// One footprint key's part: a key without a ledger entry adds nothing;
/// one with an entry adds it, and its TTL entry or nothing when no TTL is
/// known; a key that is not base64 gives the decoder's message.
pub open spec fn footprint_step(
    entries: Map<Seq<char>, Seq<u8>>,
    ttls: Map<Seq<char>, u32>,
    acc: (Seq<Seq<u8>>, Seq<Seq<u8>>),
    k: Seq<char>,
) -> Result<(Seq<Seq<u8>>, Seq<Seq<u8>>), Seq<char>> {
    if !entries.contains_key(k) {
        Ok(acc)
    } else {
        let ttl = if ttls.contains_key(k) {
            ttl_entry_bytes(k, ttls[k])
        } else {
            Ok(Seq::empty())
        };
        match ttl {
            Ok(t) => Ok((acc.0.push(entries[k]), acc.1.push(t))),
            Err(m) => Err(m),
        }
    }
}

/// The ledger entries and TTL entries for the first `n` footprint keys;
/// the first key that is not base64 stops with the decoder's message.
pub open spec fn footprint_upto(
    entries: Map<Seq<char>, Seq<u8>>,
    ttls: Map<Seq<char>, u32>,
    keys: Seq<Seq<char>>,
    n: int,
) -> Result<(Seq<Seq<u8>>, Seq<Seq<u8>>), Seq<char>>
    decreases n,
{
    if n <= 0 {
        Ok((Seq::empty(), Seq::empty()))
    } else {
        match footprint_upto(entries, ttls, keys, n - 1) {
            Err(m) => Err(m),
            Ok(acc) => footprint_step(entries, ttls, acc, keys[n - 1]),
        }
    }
}

proof fn lemma_footprint_err_stays(
    entries: Map<Seq<char>, Seq<u8>>,
    ttls: Map<Seq<char>, u32>,
    keys: Seq<Seq<char>>,
    i: int,
    n: int,
)
    requires
        0 <= i <= n,
        footprint_upto(entries, ttls, keys, i) is Err,
    ensures
        footprint_upto(entries, ttls, keys, n) == footprint_upto(entries, ttls, keys, i),
    decreases n - i,
{
    if n > i {
        lemma_footprint_err_stays(entries, ttls, keys, i, n - 1);
    }
}

/// The texts of a list of strings.
pub open spec fn texts(s: Seq<String>) -> Seq<Seq<char>> {
    s.map_values(|t: String| t@)
}

/// The bytes of a list of byte vectors.
pub open spec fn byte_lists(s: Seq<Vec<u8>>) -> Seq<Seq<u8>> {
    s.map_values(|b: Vec<u8>| b@)
}

pub(crate) fn copy_bytes(b: &[u8]) -> (r: Vec<u8>)
    ensures
        r@ == b@,
{
    let mut r: Vec<u8> = Vec::new();
    let n = b.len();
    for i in 0..n
        invariant
            n == b@.len(),
            r@ == b@.take(i as int),
    {
        r.push(b[i]);
        assert(b@.take(i + 1) == b@.take(i as int).push(b@[i as int]));
    }
    assert(b@.take(n as int) == b@);
    r
}

/// Adds one footprint key's ledger entry and TTL entry.
fn push_footprint_entry(
    entries: &KeyMap<Vec<u8>>,
    ttl_by_key: &KeyMap<u32>,
    key: &str,
    ledger_entries: &mut Vec<Vec<u8>>,
    ttl_entries: &mut Vec<Vec<u8>>,
) -> (r: GratResult<()>)
    ensures
        match footprint_step(
            bytes_map(entries.view()),
            ttl_by_key.view(),
            (byte_lists(old(ledger_entries)@), byte_lists(old(ttl_entries)@)),
            key@,
        ) {
            Ok((es, ts)) => r is Ok && byte_lists(final(ledger_entries)@) == es && byte_lists(final(ttl_entries)@)
                == ts,
            Err(m) => r matches Err(e) && is_key_error(e, m),
        },
{
    match entries.get(key) {
        None => Ok(()),
        Some(entry_bytes) => {
            let ttl = match ttl_by_key.get(key) {
                Some(live_until) => encode_ttl_entry(key, *live_until),
                None => Ok(Vec::new()),
            };
            match ttl {
                Ok(t) => {
                    let ghost es = byte_lists(ledger_entries@);
                    let ghost ts = byte_lists(ttl_entries@);
                    let ghost tv = t@;
                    let copy = copy_bytes(entry_bytes.as_slice());
                    ledger_entries.push(copy);
                    ttl_entries.push(t);
                    assert(byte_lists(ledger_entries@) =~= es.push(bytes_map(entries.view())[key@]));
                    assert(byte_lists(ttl_entries@) =~= ts.push(tv));
                    Ok(())
                },
                Err(e) => Err(e),
            }
        },
    }
}

/// The ledger entries and TTL entries handed to the host for a footprint:
/// read-only keys first, then read-write keys.
pub fn footprint_inputs(
    entries: &KeyMap<Vec<u8>>,
    ttl_by_key: &KeyMap<u32>,
    read_only: &Vec<String>,
    read_write: &Vec<String>,
) -> (r: GratResult<(Vec<Vec<u8>>, Vec<Vec<u8>>)>)
    ensures
        match footprint_upto(
            bytes_map(entries.view()),
            ttl_by_key.view(),
            texts(read_only@) + texts(read_write@),
            (read_only@.len() + read_write@.len()) as int,
        ) {
            Ok((es, ts)) => r matches Ok((a, b)) && byte_lists(a@) == es && byte_lists(b@) == ts,
            Err(m) => r matches Err(e) && is_key_error(e, m),
        },
{
    let ghost keys = texts(read_only@) + texts(read_write@);
    let ghost em = bytes_map(entries.view());
    let ghost tm = ttl_by_key.view();
    let mut ledger_entries: Vec<Vec<u8>> = Vec::new();
    let mut ttl_entries: Vec<Vec<u8>> = Vec::new();
    assert(byte_lists(ledger_entries@) =~= Seq::empty());
    assert(byte_lists(ttl_entries@) =~= Seq::empty());
    let ghost ro = read_only@.len() as int;
    let ghost total = (read_only@.len() + read_write@.len()) as int;
    for i in 0..read_only.len()
        invariant
            keys == texts(read_only@) + texts(read_write@),
            ro == read_only@.len(),
            total == read_only@.len() + read_write@.len(),
            em == bytes_map(entries.view()),
            tm == ttl_by_key.view(),
            footprint_upto(em, tm, keys, i as int) == Ok::<(Seq<Seq<u8>>, Seq<Seq<u8>>), Seq<char>>(
                (byte_lists(ledger_entries@), byte_lists(ttl_entries@)),
            ),
    {
        let key = &read_only[i];
        assert(keys[i as int] == key@);
        match push_footprint_entry(entries, ttl_by_key, key.as_str(), &mut ledger_entries, &mut ttl_entries) {
            Ok(()) => {},
            Err(e) => {
                proof {
                    assert(footprint_upto(em, tm, keys, i + 1) is Err);
                    lemma_footprint_err_stays(em, tm, keys, i + 1, total);
                }
                return Err(e);
            },
        }
    }
    for j in 0..read_write.len()
        invariant
            keys == texts(read_only@) + texts(read_write@),
            ro == read_only@.len(),
            total == read_only@.len() + read_write@.len(),
            em == bytes_map(entries.view()),
            tm == ttl_by_key.view(),
            footprint_upto(em, tm, keys, ro + j) == Ok::<(Seq<Seq<u8>>, Seq<Seq<u8>>), Seq<char>>(
                (byte_lists(ledger_entries@), byte_lists(ttl_entries@)),
            ),
    {
        let key = &read_write[j];
        assert(keys[ro + j] == key@);
        match push_footprint_entry(entries, ttl_by_key, key.as_str(), &mut ledger_entries, &mut ttl_entries) {
            Ok(()) => {},
            Err(e) => {
                proof {
                    assert(footprint_upto(em, tm, keys, ro + j + 1) is Err);
                    lemma_footprint_err_stays(em, tm, keys, ro + j + 1, total);
                }
                return Err(e);
            },
        }
    }
    Ok((ledger_entries, ttl_entries))
}

/// A change the host made to a ledger entry: its key's XDR, and its new
/// XDR or nothing when the entry was deleted; read-only accesses change
/// nothing.
pub struct LedgerChange {
    pub read_only: bool,
    pub encoded_key: Vec<u8>,
    pub encoded_new_value: Option<Vec<u8>>,
}

/// The ledger entries after the first `n` changes: a write sets the entry
/// under the base64 of its key, a deletion removes it.
pub open spec fn changed_upto(m: Map<Seq<char>, Seq<u8>>, changes: Seq<LedgerChange>, n: int) -> Map<
    Seq<char>,
    Seq<u8>,
>
    decreases n,
{
    if n <= 0 {
        m
    } else {
        let prev = changed_upto(m, changes, n - 1);
        let c = changes[n - 1];
        if c.read_only {
            prev
        } else {
            let k = base64_text(c.encoded_key@);
            match c.encoded_new_value {
                Some(v) => prev.insert(k, v@),
                None => prev.remove(k),
            }
        }
    }
}

/// The ledger entries after the host's changes.
pub fn apply_ledger_changes(entries: KeyMap<Vec<u8>>, changes: &Vec<LedgerChange>) -> (r: KeyMap<Vec<u8>>)
    ensures
        bytes_map(r.view()) == changed_upto(bytes_map(entries.view()), changes@, changes@.len() as int),
{
    let ghost m0 = bytes_map(entries.view());
    let mut state = entries;
    for i in 0..changes.len()
        invariant
            m0 == bytes_map(entries.view()),
            bytes_map(state.view()) == changed_upto(m0, changes@, i as int),
    {
        let change = &changes[i];
        if !change.read_only {
            let key = encode_base64(change.encoded_key.as_slice());
            let ghost k = key@;
            let ghost before = state.view();
            match &change.encoded_new_value {
                Some(v) => {
                    let value = copy_bytes(v.as_slice());
                    let ghost vv = value;
                    state.insert(key, value);
                    assert(bytes_map(state.view()) =~= bytes_map(before).insert(k, v@));
                },
                None => {
                    state.remove(key.as_str());
                    assert(bytes_map(state.view()) =~= bytes_map(before).remove(k));
                },
            }
        }
    }
    state
}


// ---------------------------------------------------------------------------
// The host's run
// ---------------------------------------------------------------------------

/// The memory ceiling of a replay's execution budget (500 MiB), far above
/// what a transaction uses, so that tracing is never cut short by it.
pub const MEM_BYTES_CEILING: u64 = 524_288_000;

/// The CPU and memory limits of a replay's execution budget: the
/// instruction budget the transaction was allowed at consensus (at least
/// 1), and the memory ceiling.
pub fn budget_limits(cpu_instructions_limit: u64) -> (r: (u64, u64))
    ensures
        r.0 == if cpu_instructions_limit >= 1 { cpu_instructions_limit } else { 1 },
        r.1 == MEM_BYTES_CEILING,
{
    let cpu = if cpu_instructions_limit >= 1 { cpu_instructions_limit } else { 1 };
    (cpu, MEM_BYTES_CEILING)
}

/// The error for a budget the host refused to build.
pub fn budget_error(message: &str) -> (r: GratError)
    ensures
        r matches GratError::ReplayError(m) && m@ == "failed to build execution budget: "@ + message@,
{
    let mut m = String::from_str("failed to build execution budget: ");
    append(&mut m, message);
    GratError::ReplayError(m)
}

/// The error for a host that could not set up the invocation.
pub fn setup_error(tx_hash: &str, message: &str) -> (r: GratError)
    ensures
        r matches GratError::ReplayError(m) && m@ == "sandbox execution setup failed for transaction "@ + tx_hash@
            + ": "@ + message@,
{
    let mut m = String::from_str("sandbox execution setup failed for transaction ");
    append(&mut m, tx_hash);
    append(&mut m, ": ");
    append(&mut m, message);
    GratError::ReplayError(m)
}

/// The host's base PRNG seed for a replay: the SHA-256 of the text of the
/// transaction hash.
pub fn replay_seed(tx_hash: &str) -> (r: [u8; 32])
    ensures
        r@ == sha256_of(tx_hash.spec_bytes()),
{
    sha256(tx_hash.as_bytes())
}

/// A trace event recorded during a replay.
pub struct TraceEvent {
    pub event_type: TraceEventType,
    /// Microseconds since the replay started.
    pub timestamp_us: u64,
    pub data: Json,
}

/// The data of a trace event with the budget consumed when it happened.
pub open spec fn with_budget(data: JsonV, cpu_insns: u64, mem_bytes: u64) -> JsonV {
    match data {
        JsonV::Object(m) => JsonV::Object(
            obj_insert(obj_insert(m, "cpu_insns"@, JsonV::Number(cpu_insns as int)), "mem_bytes"@, JsonV::Number(
                mem_bytes as int,
            )),
        ),
        _ => data,
    }
}

/// Records a host trace event: its kind and data, with the CPU
/// instructions and memory bytes consumed so far.
pub fn trace_event(event: &HostTraceKind, cpu_insns: u64, mem_bytes: u64, timestamp_us: u64) -> (r: TraceEvent)
    ensures
        r.event_type == classified(*event).0,
        r.timestamp_us == timestamp_us,
        r.data.v() == with_budget(classified(*event).1, cpu_insns, mem_bytes),
{
    let (event_type, data) = classify_trace_event(event);
    let data = match data {
        Json::Object(members) => {
            let members = Json::insert_member(members, String::from_str("cpu_insns"), Json::Number(cpu_insns as i128));
            let members = Json::insert_member(members, String::from_str("mem_bytes"), Json::Number(mem_bytes as i128));
            Json::Object(members)
        },
        other => other,
    };
    TraceEvent { event_type, timestamp_us, data }
}

/// What a replay found: whether the invocation succeeded, the trace, the
/// ledger entries after it, the budget consumed, and the diagnostic events.
pub struct SandboxResult {
    pub success: bool,
    pub events: Vec<TraceEvent>,
    /// Ledger entries after the invocation, XDR by base64 key.
    pub final_state: KeyMap<Vec<u8>>,
    pub total_cpu: u64,
    pub total_memory: u64,
    pub diagnostic_events: Vec<DiagnosticEventData>,
}

/// The result of a replay from the host's outcome: the ledger entries it
/// started from with the host's changes applied.
pub fn sandbox_result(
    entries: &KeyMap<Vec<u8>>,
    success: bool,
    changes: &Vec<LedgerChange>,
    events: Vec<TraceEvent>,
    total_cpu: u64,
    total_memory: u64,
    diagnostic_events: Vec<DiagnosticEventData>,
) -> (r: SandboxResult)
    ensures
        r.success == success,
        r.events == events,
        bytes_map(r.final_state.view()) == changed_upto(bytes_map(entries.view()), changes@, changes@.len() as int),
        r.total_cpu == total_cpu,
        r.total_memory == total_memory,
        r.diagnostic_events == diagnostic_events,
{
    let start = entries.copy();
    assert(bytes_map(start.view()) =~= bytes_map(entries.view()));
    let final_state = apply_ledger_changes(start, changes);
    SandboxResult { success, events, final_state, total_cpu, total_memory, diagnostic_events }
}

} // verus!
