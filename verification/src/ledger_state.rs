//! Sorting the ledger entries that the network returns for a replay: the
//! configuration entries that set up the execution budget and the entry
//! TTLs, and the footprint's own entries with their TTLs.
use vstd::prelude::*;
use vstd::string::StringSliceAdditionalSpecFns;
use stellar_xdr::curr::{
    AccountId, ConfigSettingEntry as Cfg, ConfigSettingId, FeeBumpTransactionInnerTx, LedgerEntry, LedgerEntryData,
    LedgerKey, LedgerKeyConfigSetting, Limits, MuxedAccount, OperationBody, PublicKey, ReadXdr, Transaction,
    TransactionEnvelope, TransactionExt, WriteXdr,
};
use crate::error::{GratError, GratResult};
use crate::json::{as_array_v, as_str_v, as_u64_v, get_v, Json, JsonV};
use crate::key_map::KeyMap;
use crate::sandbox::{base64_decoded, base64_text, byte_lists, bytes_map, decode_base64, encode_base64, texts};
use crate::text::{append, str_eq};
use crate::cache::{sha256, sha256_of};
use crate::replay::ReconstructionPath;

verus! {

/// `stellar_xdr::curr::ContractCostParams`, carried through as an opaque
/// value from a decoded ledger entry to the execution budget.
#[verifier::external_type_specification]
#[verifier::external_body]
pub struct ExContractCostParams(stellar_xdr::curr::ContractCostParams);

/// What replay reads of a ledger entry: which configuration setting it
/// holds, with the TTL bounds of the state archival settings.
#[derive(Clone, Copy, Debug, PartialEq, Eq)]
pub enum EntryKind {
    CpuCostParams,
    MemCostParams,
    StateArchival { min_temporary_ttl: u32, min_persistent_ttl: u32, max_entry_ttl: u32 },
    Other,
}

/// The kind of the ledger entry whose XDR is given, or the decoder's
/// message when it is not the XDR of a ledger entry.
pub uninterp spec fn ledger_entry_kind(xdr: Seq<u8>) -> Result<EntryKind, Seq<char>>;

/// A decoded ledger entry: its kind and, for the cost parameter settings,
/// the parameters.
pub struct DecodedEntry {
    pub kind: EntryKind,
    pub cost_params: Option<stellar_xdr::curr::ContractCostParams>,
}

/// Decodes a ledger entry (`LedgerEntry::from_xdr` of `stellar-xdr`, without
/// limits) and tells its configuration setting apart.
///
/// Trusted: the kind, or the error's message, depends on the bytes alone;
/// the cost parameters come with exactly the two cost parameter settings.
/// Nothing is claimed of the parameters' values.
#[verifier::external_body]
fn decode_ledger_entry(xdr: &[u8]) -> (r: Result<DecodedEntry, String>)
    ensures
        match ledger_entry_kind(xdr@) {
            Ok(k) => r matches Ok(d) && d.kind == k && (d.cost_params is Some <==> (k is CpuCostParams
                || k is MemCostParams)),
            Err(m) => r matches Err(e) && e@ == m,
        },
{
    let data = match LedgerEntry::from_xdr(xdr, Limits::none()) {
        Ok(entry) => entry.data,
        Err(e) => return Err(e.to_string()),
    };
    Ok(match data {
        LedgerEntryData::ConfigSetting(Cfg::ContractCostParamsCpuInstructions(p)) =>
            DecodedEntry { kind: EntryKind::CpuCostParams, cost_params: Some(p) },
        LedgerEntryData::ConfigSetting(Cfg::ContractCostParamsMemoryBytes(p)) =>
            DecodedEntry { kind: EntryKind::MemCostParams, cost_params: Some(p) },
        LedgerEntryData::ConfigSetting(Cfg::StateArchival(s)) => DecodedEntry { kind: EntryKind::StateArchival {
            min_temporary_ttl: s.min_temporary_ttl, min_persistent_ttl: s.min_persistent_ttl,
            max_entry_ttl: s.max_entry_ttl }, cost_params: None },
        _ => DecodedEntry { kind: EntryKind::Other, cost_params: None },
    })
}

/// Why the entries cannot be sorted.
pub enum SortError {
    MissingArray,
    MissingXdr,
    /// An entry's XDR that is not base64, with the decoder's message.
    BadBase64(Seq<char>),
    MissingKey,
    /// An entry's XDR that is not a ledger entry, with the decoder's message.
    BadEntry(Seq<char>),
    MissingCpuParams,
    MissingMemParams,
    MissingArchival,
}

/// Entries sorted so far: the footprint's entries and TTLs, whether each
/// cost parameter setting was seen, and the archival TTL bounds.
pub struct SortState {
    pub entries: Map<Seq<char>, Seq<u8>>,
    pub ttls: Map<Seq<char>, u32>,
    pub cpu: bool,
    pub mem: bool,
    pub archival: Option<(u32, u32, u32)>,
}

/// Nothing sorted.
pub open spec fn empty_sort() -> SortState {
    SortState { entries: Map::empty(), ttls: Map::empty(), cpu: false, mem: false, archival: None }
}

/// The keys of the three configuration settings replay reads, as base64.
pub struct ConfigKeys {
    pub cpu: String,
    pub mem: String,
    pub archival: String,
}

/// Sorts one returned entry. It must carry its XDR in base64 and its key;
/// an entry under a configuration key sets that setting when it holds it;
/// any other is a footprint entry, with its TTL when the entry gives one
/// (the live-until ledger cut to 32 bits).
pub open spec fn sort_step(st: SortState, item: JsonV, keys: (Seq<char>, Seq<char>, Seq<char>)) -> Result<
    SortState,
    SortError,
> {
    let key = as_str_v(get_v(item, "key"@));
    match as_str_v(get_v(item, "xdr"@)) {
        None => Err(SortError::MissingXdr),
        Some(x) => match base64_decoded(x) {
            Err(m) => Err(SortError::BadBase64(m)),
            Ok(bytes) => match key {
                None => Err(SortError::MissingKey),
                Some(k) => match ledger_entry_kind(bytes) {
                    Err(m) => Err(SortError::BadEntry(m)),
                    Ok(kind) => Ok(
                        if k == keys.0 {
                            if kind is CpuCostParams { SortState { cpu: true, ..st } } else { st }
                        } else if k == keys.1 {
                            if kind is MemCostParams { SortState { mem: true, ..st } } else { st }
                        } else if k == keys.2 {
                            match kind {
                                EntryKind::StateArchival { min_temporary_ttl, min_persistent_ttl, max_entry_ttl } =>
                                    SortState { archival: Some((min_temporary_ttl, min_persistent_ttl, max_entry_ttl)), ..st },
                                _ => st,
                            }
                        } else {
                            SortState {
                                ttls: match as_u64_v(get_v(item, "liveUntilLedgerSeq"@)) {
                                    Some(l) => st.ttls.insert(k, l as u32),
                                    None => st.ttls,
                                },
                                entries: st.entries.insert(k, bytes),
                                ..st
                            }
                        },
                    ),
                },
            },
        },
    }
}

/// The state after sorting the first `n` entries; the first entry that
/// cannot be sorted stops with its reason.
pub open spec fn sort_upto(items: Seq<JsonV>, keys: (Seq<char>, Seq<char>, Seq<char>), n: int) -> Result<
    SortState,
    SortError,
>
    decreases n,
{
    if n <= 0 {
        Ok(empty_sort())
    } else {
        match sort_upto(items, keys, n - 1) {
            Err(e) => Err(e),
            Ok(st) => sort_step(st, items[n - 1], keys),
        }
    }
}

/// The sorted entries of a `getLedgerEntries` response: all entries sorted,
/// then the CPU and memory cost parameters and the archival settings
/// required, in that order.
pub open spec fn sorted(response: JsonV, keys: (Seq<char>, Seq<char>, Seq<char>)) -> Result<SortState, SortError> {
    match as_array_v(get_v(response, "entries"@)) {
        None => Err(SortError::MissingArray),
        Some(items) => match sort_upto(items, keys, items.len() as int) {
            Err(e) => Err(e),
            Ok(st) => if !st.cpu {
                Err(SortError::MissingCpuParams)
            } else if !st.mem {
                Err(SortError::MissingMemParams)
            } else if st.archival is None {
                Err(SortError::MissingArchival)
            } else {
                Ok(st)
            },
        },
    }
}

/// The error reported for a reason.
pub open spec fn reports(e: GratError, s: SortError) -> bool {
    match s {
        SortError::MissingArray => e matches GratError::ReplayError(m) && m@
            == "getLedgerEntries response is missing an entries array"@,
        SortError::MissingXdr => e matches GratError::ReplayError(m) && m@
            == "getLedgerEntries entry is missing its xdr field"@,
        SortError::BadBase64(msg) => e matches GratError::XdrDecodingFailed { xdr_type, reason } && xdr_type@
            == "LedgerEntry"@ && reason@ == "invalid base64: "@ + msg,
        SortError::MissingKey => e matches GratError::ReplayError(m) && m@
            == "getLedgerEntries entry is missing its key field — RPC node is too old to support replay"@,
        SortError::BadEntry(msg) => e matches GratError::XdrDecodingFailed { xdr_type, reason } && xdr_type@
            == "LedgerEntry"@ && reason@ == msg,
        SortError::MissingCpuParams => e matches GratError::ReplayError(m) && m@
            == "Network CPU cost parameters are unavailable — cannot build an execution budget"@,
        SortError::MissingMemParams => e matches GratError::ReplayError(m) && m@
            == "Network memory cost parameters are unavailable — cannot build an execution budget"@,
        SortError::MissingArchival => e matches GratError::ReplayError(m) && m@
            == "Network state-archival settings are unavailable — cannot determine entry TTLs"@,
    }
}

/// The sorted entries of a `getLedgerEntries` response.
pub struct SortedEntries {
    /// The footprint's entries, XDR by base64 key.
    pub entries: KeyMap<Vec<u8>>,
    /// The live-until ledgers of the footprint entries that have one.
    pub ttl_by_key: KeyMap<u32>,
    pub cpu_cost_params: stellar_xdr::curr::ContractCostParams,
    pub mem_cost_params: stellar_xdr::curr::ContractCostParams,
    pub min_temp_entry_ttl: u32,
    pub min_persistent_entry_ttl: u32,
    pub max_entry_ttl: u32,
}

/// Entries sorted so far, in executable form.
struct SortAcc {
    entries: KeyMap<Vec<u8>>,
    ttl_by_key: KeyMap<u32>,
    cpu: Option<stellar_xdr::curr::ContractCostParams>,
    mem: Option<stellar_xdr::curr::ContractCostParams>,
    archival: Option<(u32, u32, u32)>,
}

impl SortAcc {
    spec fn v(&self) -> SortState {
        SortState {
            entries: bytes_map(self.entries.view()),
            ttls: self.ttl_by_key.view(),
            cpu: self.cpu is Some,
            mem: self.mem is Some,
            archival: self.archival,
        }
    }
}

fn replay_error(m: &str) -> (e: GratError)
    ensures
        e matches GratError::ReplayError(t) && t@ == m@,
{
    GratError::ReplayError(String::from_str(m))
}

fn copy_text(t: &str) -> (r: String)
    ensures
        r@ == t@,
{
    String::from_str(t)
}

/// Sorts one returned entry into the entries sorted so far.
fn sort_one(item: &Json, keys: &ConfigKeys, acc: &mut SortAcc) -> (r: GratResult<()>)
    ensures
        match sort_step(old(acc).v(), item.v(), (keys.cpu@, keys.mem@, keys.archival@)) {
            Ok(st) => r is Ok && final(acc).v() == st,
            Err(s) => r matches Err(e) && reports(e, s),
        },
{
    let key = match item.get("key") {
        Some(k) => k.as_str(),
        None => None,
    };
    let xdr = match item.get("xdr") {
        Some(x) => x.as_str(),
        None => None,
    };
    let xdr = match xdr {
        Some(x) => x,
        None => return Err(replay_error("getLedgerEntries entry is missing its xdr field")),
    };
    let bytes = match decode_base64(xdr.as_str()) {
        Ok(b) => b,
        Err(m) => {
            let mut reason = String::from_str("invalid base64: ");
            append(&mut reason, m.as_str());
            return Err(GratError::XdrDecodingFailed { xdr_type: String::from_str("LedgerEntry"), reason });
        },
    };
    let key = match key {
        Some(k) => k,
        None => return Err(
            replay_error("getLedgerEntries entry is missing its key field — RPC node is too old to support replay"),
        ),
    };
    let decoded = match decode_ledger_entry(bytes.as_slice()) {
        Ok(d) => d,
        Err(m) => return Err(GratError::XdrDecodingFailed { xdr_type: String::from_str("LedgerEntry"), reason: m }),
    };
    if str_eq(key.as_str(), keys.cpu.as_str()) {
        if let EntryKind::CpuCostParams = decoded.kind {
            acc.cpu = decoded.cost_params;
        }
    } else if str_eq(key.as_str(), keys.mem.as_str()) {
        if let EntryKind::MemCostParams = decoded.kind {
            acc.mem = decoded.cost_params;
        }
    } else if str_eq(key.as_str(), keys.archival.as_str()) {
        if let EntryKind::StateArchival { min_temporary_ttl, min_persistent_ttl, max_entry_ttl } = decoded.kind {
            acc.archival = Some((min_temporary_ttl, min_persistent_ttl, max_entry_ttl));
        }
    } else {
        let live_until = match item.get("liveUntilLedgerSeq") {
            Some(l) => l.as_u64(),
            None => None,
        };
        match live_until {
            Some(l) => {
                let cut: u32 = #[verifier::truncate] (l as u32);
                acc.ttl_by_key.insert(copy_text(key.as_str()), cut);
            },
            None => {},
        }
        let ghost before = acc.entries.view();
        let ghost bv = bytes@;
        acc.entries.insert(copy_text(key.as_str()), bytes);
        assert(bytes_map(acc.entries.view()) =~= bytes_map(before).insert(key@, bv));
    }
    Ok(())
}

proof fn lemma_sort_err_stays(items: Seq<JsonV>, keys: (Seq<char>, Seq<char>, Seq<char>), i: int, n: int)
    requires
        0 <= i <= n,
        sort_upto(items, keys, i) is Err,
    ensures
        sort_upto(items, keys, n) == sort_upto(items, keys, i),
    decreases n - i,
{
    if n > i {
        lemma_sort_err_stays(items, keys, i, n - 1);
    }
}

/// Sorts the entries of a `getLedgerEntries` response given the keys of
/// the configuration settings replay reads.
pub fn sort_ledger_entries(response: &Json, keys: &ConfigKeys) -> (r: GratResult<SortedEntries>)
    ensures
        match sorted(response.v(), (keys.cpu@, keys.mem@, keys.archival@)) {
            Ok(st) => r matches Ok(s) && bytes_map(s.entries.view())
                == st.entries && s.ttl_by_key.view() == st.ttls && st.archival == Some(
                (s.min_temp_entry_ttl, s.min_persistent_entry_ttl, s.max_entry_ttl),
            ),
            Err(why) => r matches Err(e) && reports(e, why),
        },
{
    let ghost kv = (keys.cpu@, keys.mem@, keys.archival@);
    let items = match response.get("entries") {
        Some(v) => v.as_array(),
        None => None,
    };
    let items = match items {
        Some(items) => items,
        None => return Err(replay_error("getLedgerEntries response is missing an entries array")),
    };
    let ghost iv = Json::vs(items@);
    proof { Json::lemma_vs(items@); }
    assert(as_array_v(get_v(response.v(), "entries"@)) == Some(iv));
    let mut acc = SortAcc {
        entries: KeyMap::new(),
        ttl_by_key: KeyMap::new(),
        cpu: None,
        mem: None,
        archival: None,
    };
    assert(bytes_map(acc.entries.view()) =~= Map::<Seq<char>, Seq<u8>>::empty());
    let n = items.len();
    for i in 0..n
        invariant
            n == items@.len(),
            iv == Json::vs(items@),
            iv.len() == n,
            forall|k: int| 0 <= k < n ==> #[trigger] iv[k] == items@[k].v(),
            kv == (keys.cpu@, keys.mem@, keys.archival@),
            as_array_v(get_v(response.v(), "entries"@)) == Some(iv),
            sort_upto(iv, kv, i as int) == Ok::<SortState, SortError>(acc.v()),
    {
        assert(iv[i as int] == items@[i as int].v());
        match sort_one(&items[i], keys, &mut acc) {
            Ok(()) => {},
            Err(e) => {
                proof { lemma_sort_err_stays(iv, kv, i + 1, n as int); }
                return Err(e);
            },
        }
    }
    let SortAcc { entries, ttl_by_key, cpu, mem, archival } = acc;
    let cpu_cost_params = match cpu {
        Some(p) => p,
        None => return Err(
            replay_error("Network CPU cost parameters are unavailable — cannot build an execution budget"),
        ),
    };
    let mem_cost_params = match mem {
        Some(p) => p,
        None => return Err(
            replay_error("Network memory cost parameters are unavailable — cannot build an execution budget"),
        ),
    };
    let (min_temp_entry_ttl, min_persistent_entry_ttl, max_entry_ttl) = match archival {
        Some(a) => a,
        None => return Err(
            replay_error("Network state-archival settings are unavailable — cannot determine entry TTLs"),
        ),
    };
    Ok(SortedEntries {
        entries,
        ttl_by_key,
        cpu_cost_params,
        mem_cost_params,
        min_temp_entry_ttl,
        min_persistent_entry_ttl,
        max_entry_ttl,
    })
}

/// The configuration settings replay reads.
#[derive(Clone, Copy, Debug, PartialEq, Eq)]
pub enum ConfigSetting {
    CpuCostParams,
    MemCostParams,
    StateArchival,
}

/// The protocol's id of a configuration setting.
pub open spec fn setting_id(s: ConfigSetting) -> u8 {
    match s {
        ConfigSetting::CpuCostParams => 6,
        ConfigSetting::MemCostParams => 7,
        ConfigSetting::StateArchival => 10,
    }
}

/// The XDR of the ledger key of a configuration setting: the ledger entry
/// type of configuration settings (8) and the setting's id, each a
/// big-endian 32-bit integer.
pub open spec fn config_key_xdr(s: ConfigSetting) -> Seq<u8> {
    seq![0u8, 0u8, 0u8, 8u8, 0u8, 0u8, 0u8, setting_id(s)]
}

/// The XDR of the ledger key of a configuration setting
/// (`LedgerKey::ConfigSetting(..).to_xdr` of `stellar-xdr`, without limits).
///
/// Trusted: the XDR is the ledger entry type `CONFIG_SETTING` (8) and the
/// setting's id, each written as a big-endian `i32`, and writing it into
/// memory without limits does not fail.
#[verifier::external_body]
fn config_setting_key_xdr(setting: ConfigSetting) -> (r: Result<Vec<u8>, String>)
    ensures
        r is Ok,
        r->Ok_0@ == config_key_xdr(setting),
{
    let config_setting_id = match setting {
        ConfigSetting::CpuCostParams => ConfigSettingId::ContractCostParamsCpuInstructions,
        ConfigSetting::MemCostParams => ConfigSettingId::ContractCostParamsMemoryBytes,
        ConfigSetting::StateArchival => ConfigSettingId::StateArchival,
    };
    match LedgerKey::ConfigSetting(LedgerKeyConfigSetting { config_setting_id }).to_xdr(Limits::none()) {
        Ok(bytes) => Ok(bytes),
        Err(e) => Err(e.to_string()),
    }
}

/// The base64 ledger key of a configuration setting.
pub fn config_setting_key(setting: ConfigSetting) -> (r: GratResult<String>)
    ensures
        r matches Ok(t) && t@ == base64_text(config_key_xdr(setting)),
{
    match config_setting_key_xdr(setting) {
        Ok(bytes) => Ok(encode_base64(bytes.as_slice())),
        Err(m) => Err(GratError::XdrDecodingFailed { xdr_type: String::from_str("LedgerKey"), reason: m }),
    }
}

/// The base64 ledger keys of the three configuration settings replay reads.
pub fn config_keys() -> (r: GratResult<ConfigKeys>)
    ensures
        r matches Ok(k) && k.cpu@ == base64_text(config_key_xdr(ConfigSetting::CpuCostParams)) && k.mem@
            == base64_text(config_key_xdr(ConfigSetting::MemCostParams)) && k.archival@ == base64_text(
            config_key_xdr(ConfigSetting::StateArchival),
        ),
{
    let cpu = config_setting_key(ConfigSetting::CpuCostParams)?;
    let mem = config_setting_key(ConfigSetting::MemCostParams)?;
    let archival = config_setting_key(ConfigSetting::StateArchival)?;
    Ok(ConfigKeys { cpu, mem, archival })
}

/// The XDR bytes of the envelope of a transaction as `getTransaction`
/// returns it: the envelope must be there, in base64.
pub fn envelope_bytes(envelope_xdr: Option<&str>) -> (r: GratResult<Vec<u8>>)
    ensures
        envelope_xdr is None ==> (r matches Err(GratError::ReplayError(m)) && m@
            == "Transaction envelope XDR is missing from getTransaction"@),
        envelope_xdr matches Some(t) ==> match base64_decoded(t@) {
            Ok(b) => r matches Ok(v) && v@ == b,
            Err(msg) => r matches Err(GratError::XdrDecodingFailed { xdr_type, reason }) && xdr_type@
                == "TransactionEnvelope"@ && reason@ == "invalid base64: "@ + msg,
        },
{
    let text = match envelope_xdr {
        Some(t) => t,
        None => return Err(GratError::ReplayError(String::from_str(
            "Transaction envelope XDR is missing from getTransaction",
        ))),
    };
    match decode_base64(text) {
        Ok(bytes) => Ok(bytes),
        Err(m) => {
            let mut reason = String::from_str("invalid base64: ");
            append(&mut reason, m.as_str());
            Err(GratError::XdrDecodingFailed { xdr_type: String::from_str("TransactionEnvelope"), reason })
        },
    }
}

/// The kind of a transaction envelope.
#[derive(Clone, Copy, Debug, PartialEq, Eq)]
pub enum EnvelopeKind {
    /// A transaction envelope.
    Tx,
    /// A fee bump wrapping a transaction envelope.
    FeeBump,
    /// A pre-Soroban envelope.
    V0,
}

/// An operation invoking a host function: the host function's XDR and the
/// XDR of each authorization entry.
pub struct InvokeOp {
    pub host_function_xdr: Vec<u8>,
    pub auth_xdr: Vec<Vec<u8>>,
}

/// The Soroban data of a transaction: the XDR of its footprint's keys and
/// of its resources, and its instruction budget.
pub struct SorobanData {
    pub read_only_keys_xdr: Vec<Vec<u8>>,
    pub read_write_keys_xdr: Vec<Vec<u8>>,
    pub resources_xdr: Vec<u8>,
    pub instructions: u32,
}

/// What replay reads of a transaction envelope (of the inner transaction
/// of a fee bump): for each operation its host function invocation, if it
/// is one; the Soroban data, if attached; and the XDR of the source
/// account (muxed accounts reduced to their key).
pub struct ReplayEnvelope {
    pub kind: EnvelopeKind,
    pub operations: Vec<Option<InvokeOp>>,
    pub soroban_data: Option<SorobanData>,
    pub source_account_xdr: Vec<u8>,
}

/// An invocation as bytes: the host function's XDR and the XDR of each
/// authorization entry.
pub type InvokeOpV = (Seq<u8>, Seq<Seq<u8>>);

/// Soroban data as bytes: the XDR of the footprint's read-only and
/// read-write keys and of the resources, and the instruction budget.
pub struct SorobanDataV {
    pub read_only: Seq<Seq<u8>>,
    pub read_write: Seq<Seq<u8>>,
    pub resources: Seq<u8>,
    pub instructions: u32,
}

/// What replay reads of a transaction, as bytes.
pub struct TransactionV {
    pub operations: Seq<Option<InvokeOpV>>,
    pub soroban_data: Option<SorobanDataV>,
    pub source_account: Seq<u8>,
}

/// What replay reads of an envelope, as bytes.
pub struct ReplayEnvelopeV {
    pub kind: EnvelopeKind,
    pub transaction: TransactionV,
}

/// An invocation operation as bytes.
pub open spec fn invoke_op_v(o: Option<InvokeOp>) -> Option<InvokeOpV> {
    match o {
        Some(op) => Some((op.host_function_xdr@, byte_lists(op.auth_xdr@))),
        None => None,
    }
}

/// The operations as bytes.
pub open spec fn ops_v(s: Seq<Option<InvokeOp>>) -> Seq<Option<InvokeOpV>> {
    s.map_values(|o: Option<InvokeOp>| invoke_op_v(o))
}

/// Soroban data as bytes.
pub open spec fn soroban_data_v(o: Option<SorobanData>) -> Option<SorobanDataV> {
    match o {
        Some(d) => Some(SorobanDataV {
            read_only: byte_lists(d.read_only_keys_xdr@),
            read_write: byte_lists(d.read_write_keys_xdr@),
            resources: d.resources_xdr@,
            instructions: d.instructions,
        }),
        None => None,
    }
}

impl ReplayEnvelope {
    /// The envelope as bytes.
    pub open spec fn v(&self) -> ReplayEnvelopeV {
        ReplayEnvelopeV {
            kind: self.kind,
            transaction: TransactionV {
                operations: ops_v(self.operations@),
                soroban_data: soroban_data_v(self.soroban_data),
                source_account: self.source_account_xdr@,
            },
        }
    }
}

/// The base64 text of each of a list of byte strings.
pub open spec fn base64_all(xdrs: Seq<Seq<u8>>) -> Seq<Seq<char>> {
    xdrs.map_values(|b: Seq<u8>| base64_text(b))
}

/// What preparing the invocation of an envelope gives: a pre-Soroban
/// envelope cannot be replayed; the first operation invoking a host
/// function is the one replayed (without one, the transaction is not a
/// Soroban transaction); the Soroban data must be attached; the
/// footprint's keys are given in base64.
pub open spec fn invocation_outcome(v: ReplayEnvelopeV, r: GratResult<Invocation>) -> bool {
    let ops = v.transaction.operations;
    if v.kind is V0 {
        r matches Err(e) && is_v0_error(e)
    } else if first_invoke(ops, 0) is None {
        r == Err::<Invocation, GratError>(GratError::NotSorobanTransaction)
    } else if v.transaction.soroban_data is None {
        r matches Err(e) && is_no_data_error(e)
    } else {
        r matches Ok(inv) && {
            let op = ops[first_invoke(ops, 0)->Some_0]->Some_0;
            let data = v.transaction.soroban_data->Some_0;
            &&& inv.host_function_xdr@ == op.0
            &&& byte_lists(inv.auth_entries_xdr@) == op.1
            &&& inv.resources_xdr@ == data.resources
            &&& inv.source_account_xdr@ == v.transaction.source_account
            &&& texts(inv.read_only_keys@) == base64_all(data.read_only)
            &&& texts(inv.read_write_keys@) == base64_all(data.read_write)
            &&& inv.cpu_instructions_limit == data.instructions as u64
        }
    }
}

/// What the sandbox needs of a transaction to invoke its host function.
pub struct Invocation {
    pub host_function_xdr: Vec<u8>,
    pub resources_xdr: Vec<u8>,
    pub source_account_xdr: Vec<u8>,
    pub auth_entries_xdr: Vec<Vec<u8>>,
    /// The base64 ledger key of each read-only footprint key.
    pub read_only_keys: Vec<String>,
    /// The base64 ledger key of each read-write footprint key.
    pub read_write_keys: Vec<String>,
    /// The instruction budget the transaction was allowed at consensus.
    pub cpu_instructions_limit: u64,
}

/// The first operation that invokes a host function, from operation `i` on.
pub open spec fn first_invoke<A>(ops: Seq<Option<A>>, i: int) -> Option<int>
    decreases ops.len() - i,
{
    if i < 0 || i >= ops.len() {
        None
    } else if ops[i] is Some {
        Some(i)
    } else {
        first_invoke(ops, i + 1)
    }
}

/// The base64 text of each of a list of XDR byte strings.
pub open spec fn base64_texts(xdrs: Seq<Vec<u8>>) -> Seq<Seq<char>> {
    xdrs.map_values(|b: Vec<u8>| base64_text(b@))
}

/// The error for a pre-Soroban envelope.
pub open spec fn is_v0_error(e: GratError) -> bool {
    e matches GratError::ReplayError(m) && m@
        == "Transaction envelope is a pre-Soroban V0 envelope and cannot invoke a host function"@
}

/// The error for a transaction without Soroban data.
pub open spec fn is_no_data_error(e: GratError) -> bool {
    e matches GratError::ReplayError(m) && m@ == "Transaction has no Soroban resource data attached"@
}

fn texts_of(xdrs: &Vec<Vec<u8>>) -> (r: Vec<String>)
    ensures
        texts(r@) == base64_texts(xdrs@),
{
    let mut r: Vec<String> = Vec::new();
    let n = xdrs.len();
    for i in 0..n
        invariant
            n == xdrs@.len(),
            texts(r@) == base64_texts(xdrs@).take(i as int),
    {
        let t = encode_base64(xdrs[i].as_slice());
        let ghost before = texts(r@);
        let ghost tv = t@;
        r.push(t);
        assert(texts(r@) =~= before.push(tv));
        assert(base64_texts(xdrs@).take(i + 1) =~= base64_texts(xdrs@).take(i as int).push(tv));
    }
    assert(base64_texts(xdrs@).take(n as int) =~= base64_texts(xdrs@));
    r
}

proof fn lemma_first_invoke<A>(ops: Seq<Option<A>>, i: int)
    requires
        0 <= i,
    ensures
        first_invoke(ops, i) matches Some(k) ==> i <= k < ops.len() && ops[k] is Some,
    decreases ops.len() - i,
{
    if i < ops.len() && ops[i] is None {
        lemma_first_invoke(ops, i + 1);
    }
}

proof fn lemma_first_invoke_v(ops: Seq<Option<InvokeOp>>, i: int)
    requires
        0 <= i,
    ensures
        first_invoke(ops_v(ops), i) == first_invoke(ops, i),
    decreases ops.len() - i,
{
    if i < ops.len() {
        assert(ops_v(ops)[i] == invoke_op_v(ops[i]));
        lemma_first_invoke_v(ops, i + 1);
    }
}

proof fn lemma_base64_all(xdrs: Seq<Vec<u8>>)
    ensures
        base64_all(byte_lists(xdrs)) == base64_texts(xdrs),
{
    assert(base64_all(byte_lists(xdrs)) =~= base64_texts(xdrs));
}

fn first_invoke_index(ops: &Vec<Option<InvokeOp>>) -> (r: Option<usize>)
    ensures
        match r {
            Some(k) => first_invoke(ops@, 0) == Some(k as int) && k < ops@.len() && ops@[k as int] is Some,
            None => first_invoke(ops@, 0) is None,
        },
{
    let n = ops.len();
    for i in 0..n
        invariant
            n == ops@.len(),
            first_invoke(ops@, 0) == first_invoke(ops@, i as int),
    {
        if ops[i].is_some() {
            proof { lemma_first_invoke(ops@, i as int); }
            return Some(i);
        }
    }
    None
}

/// Reads the invocation of a transaction envelope: a pre-Soroban envelope
/// cannot be replayed; the first operation invoking a host function is
/// the one replayed (without one, the transaction is not a Soroban
/// transaction); the Soroban data must be attached; the footprint's keys
/// are given in base64.
pub fn prepare_invocation(env: ReplayEnvelope) -> (r: GratResult<Invocation>)
    ensures
        invocation_outcome(env.v(), r),
{
    if let EnvelopeKind::V0 = env.kind {
        return Err(GratError::ReplayError(String::from_str(
            "Transaction envelope is a pre-Soroban V0 envelope and cannot invoke a host function",
        )));
    }
    proof {
        lemma_first_invoke_v(env.operations@, 0);
    }
    let ghost ev = env.v();
    let ReplayEnvelope { kind, mut operations, soroban_data, source_account_xdr } = env;
    let k = match first_invoke_index(&operations) {
        Some(k) => k,
        None => return Err(GratError::NotSorobanTransaction),
    };
    let data = match soroban_data {
        Some(d) => d,
        None => return Err(GratError::ReplayError(String::from_str(
            "Transaction has no Soroban resource data attached",
        ))),
    };
    let ghost ops0 = operations@;
    let op = match operations.remove(k) {
        Some(op) => op,
        None => return Err(GratError::NotSorobanTransaction),
    };
    proof {
        assert(ops_v(ops0)[k as int] == invoke_op_v(ops0[k as int]));
        lemma_base64_all(data.read_only_keys_xdr@);
        lemma_base64_all(data.read_write_keys_xdr@);
    }
    let read_only_keys = texts_of(&data.read_only_keys_xdr);
    let read_write_keys = texts_of(&data.read_write_keys_xdr);
    Ok(Invocation {
        host_function_xdr: op.host_function_xdr,
        resources_xdr: data.resources_xdr,
        source_account_xdr,
        auth_entries_xdr: op.auth_xdr,
        read_only_keys,
        read_write_keys,
        cpu_instructions_limit: data.instructions as u64,
    })
}

/// The kind of the transaction envelope whose XDR is given, and the XDR of
/// its transaction (of the inner transaction of a fee bump; none for a
/// pre-Soroban envelope); or the decoder's or the encoder's message.
pub uninterp spec fn envelope_of(xdr: Seq<u8>) -> Result<(EnvelopeKind, Option<Seq<u8>>), Seq<char>>;

/// What replay reads of the transaction whose XDR is given, or the
/// decoder's message. An operation counts as an invocation, and Soroban
/// data as attached, only where their parts can be written back as XDR.
pub uninterp spec fn transaction_of(xdr: Seq<u8>) -> Result<TransactionV, Seq<char>>;

/// Decodes a transaction envelope (`TransactionEnvelope::from_xdr` of
/// `stellar-xdr`, without limits) and writes its transaction back as XDR
/// (`Transaction::to_xdr`).
///
/// Trusted: the result, or the message, depends on the bytes alone.
#[verifier::external_body]
fn decode_envelope(xdr: &[u8]) -> (r: Result<(EnvelopeKind, Option<Vec<u8>>), String>)
    ensures
        match envelope_of(xdr@) {
            Ok((k, t)) => r is Ok && r->Ok_0.0 == k && (match r->Ok_0.1 {
                Some(b) => t == Some(b@),
                None => t is None,
            }),
            Err(m) => r is Err && r->Err_0@ == m,
        },
{
    let (kind, tx) = match TransactionEnvelope::from_xdr(xdr, Limits::none()) {
        Ok(TransactionEnvelope::TxV0(_)) => return Ok((EnvelopeKind::V0, None)),
        Ok(TransactionEnvelope::Tx(e)) => (EnvelopeKind::Tx, e.tx),
        Ok(TransactionEnvelope::TxFeeBump(fb)) => match fb.tx.inner_tx {
            FeeBumpTransactionInnerTx::Tx(inner) => (EnvelopeKind::FeeBump, inner.tx),
        },
        Err(e) => return Err(e.to_string()),
    };
    match tx.to_xdr(Limits::none()) {
        Ok(b) => Ok((kind, Some(b))),
        Err(e) => Err(e.to_string()),
    }
}

/// The number of operations of a transaction (`Transaction::from_xdr` of
/// `stellar-xdr`, without limits).
///
/// Trusted: the result, or the message, depends on the bytes alone.
#[verifier::external_body]
fn transaction_operation_count(tx: &[u8]) -> (r: Result<usize, String>)
    ensures
        match transaction_of(tx@) {
            Ok(t) => r is Ok && r->Ok_0 == t.operations.len(),
            Err(m) => r is Err && r->Err_0@ == m,
        },
{
    match Transaction::from_xdr(tx, Limits::none()) {
        Ok(t) => Ok(t.operations.len()),
        Err(e) => Err(e.to_string()),
    }
}

/// Operation `i` of a transaction as an invocation, if it invokes a host
/// function (`Transaction::from_xdr`, then `to_xdr` of its host function
/// and authorization entries).
///
/// Trusted: the result depends on the bytes and `i` alone.
#[verifier::external_body]
fn transaction_invoke_op(tx: &[u8], i: usize) -> (r: Option<InvokeOp>)
    requires
        transaction_of(tx@) is Ok,
        i < transaction_of(tx@)->Ok_0.operations.len(),
    ensures
        invoke_op_v(r) == transaction_of(tx@)->Ok_0.operations[i as int],
{
    let t = Transaction::from_xdr(tx, Limits::none()).ok()?;
    match &t.operations.get(i)?.body {
        OperationBody::InvokeHostFunction(op) => Some(InvokeOp {
            host_function_xdr: op.host_function.to_xdr(Limits::none()).ok()?,
            auth_xdr: op.auth.iter().map(|a| a.to_xdr(Limits::none())).collect::<Result<Vec<_>, _>>().ok()?,
        }),
        _ => None,
    }
}

/// The Soroban data of a transaction, if attached (`Transaction::from_xdr`,
/// then `to_xdr` of the footprint's keys and of the resources).
///
/// Trusted: the result depends on the bytes alone.
#[verifier::external_body]
fn transaction_soroban_data(tx: &[u8]) -> (r: Option<SorobanData>)
    requires
        transaction_of(tx@) is Ok,
    ensures
        soroban_data_v(r) == transaction_of(tx@)->Ok_0.soroban_data,
{
    let d = match Transaction::from_xdr(tx, Limits::none()).ok()?.ext {
        TransactionExt::V1(d) => d,
        TransactionExt::V0 => return None,
    };
    let fp = &d.resources.footprint;
    Some(SorobanData {
        read_only_keys_xdr: fp.read_only.iter().map(|k| k.to_xdr(Limits::none())).collect::<Result<_, _>>().ok()?,
        read_write_keys_xdr: fp.read_write.iter().map(|k| k.to_xdr(Limits::none())).collect::<Result<_, _>>().ok()?,
        resources_xdr: d.resources.to_xdr(Limits::none()).ok()?,
        instructions: d.resources.instructions,
    })
}

/// The XDR of the source account of a transaction, a muxed account reduced
/// to its key (`Transaction::from_xdr`, then `AccountId::to_xdr`).
///
/// Trusted: the result depends on the bytes alone.
#[verifier::external_body]
fn transaction_source_account(tx: &[u8]) -> (r: Vec<u8>)
    requires
        transaction_of(tx@) is Ok,
    ensures
        r@ == transaction_of(tx@)->Ok_0.source_account,
{
    let key = match Transaction::from_xdr(tx, Limits::none()).map(|t| t.source_account) {
        Ok(MuxedAccount::Ed25519(key)) => key,
        Ok(MuxedAccount::MuxedEd25519(m)) => m.ed25519,
        Err(_) => return Vec::new(),
    };
    AccountId(PublicKey::PublicKeyTypeEd25519(key)).to_xdr(Limits::none()).unwrap_or_default()
}

/// What replay reads of the envelope whose XDR is given, or the decoder's
/// message.
pub open spec fn replay_envelope_v(xdr: Seq<u8>) -> Result<ReplayEnvelopeV, Seq<char>> {
    match envelope_of(xdr) {
        Err(m) => Err(m),
        Ok((kind, None)) => Ok(ReplayEnvelopeV {
            kind,
            transaction: TransactionV { operations: Seq::empty(), soroban_data: None, source_account: Seq::empty() },
        }),
        Ok((kind, Some(t))) => match transaction_of(t) {
            Err(m) => Err(m),
            Ok(tv) => Ok(ReplayEnvelopeV { kind, transaction: tv }),
        },
    }
}

/// Reads what replay needs of the envelope whose XDR is given.
pub fn read_replay_envelope(xdr: &[u8]) -> (r: Result<ReplayEnvelope, String>)
    ensures
        match replay_envelope_v(xdr@) {
            Ok(v) => r matches Ok(env) && env.v() == v,
            Err(m) => r matches Err(e) && e@ == m,
        },
{
    let (kind, tx) = decode_envelope(xdr)?;
    let tx = match tx {
        Some(t) => t,
        None => {
            let env = ReplayEnvelope { kind, operations: Vec::new(), soroban_data: None, source_account_xdr: Vec::new() };
            assert(ops_v(env.operations@) =~= Seq::<Option<InvokeOpV>>::empty());
            return Ok(env);
        },
    };
    let n = transaction_operation_count(tx.as_slice())?;
    let ghost tv = transaction_of(tx@)->Ok_0;
    let mut operations: Vec<Option<InvokeOp>> = Vec::new();
    for i in 0..n
        invariant
            transaction_of(tx@) == Ok::<TransactionV, Seq<char>>(tv),
            n == tv.operations.len(),
            ops_v(operations@) == tv.operations.take(i as int),
    {
        let op = transaction_invoke_op(tx.as_slice(), i);
        let ghost before = operations@;
        operations.push(op);
        assert(ops_v(operations@) =~= ops_v(before).push(invoke_op_v(op)));
        assert(tv.operations.take(i + 1) =~= tv.operations.take(i as int).push(tv.operations[i as int]));
    }
    assert(tv.operations.take(n as int) =~= tv.operations);
    let soroban_data = transaction_soroban_data(tx.as_slice());
    let source_account_xdr = transaction_source_account(tx.as_slice());
    Ok(ReplayEnvelope { kind, operations, soroban_data, source_account_xdr })
}

/// What a replay asks the network for: the invocation, the keys of the
/// configuration settings, and every ledger key to fetch.
pub struct HotPathRequest {
    pub invocation: Invocation,
    pub config: ConfigKeys,
    pub keys: Vec<String>,
}

/// The request of a hot-path replay from the envelope `getTransaction`
/// returned (base64): the envelope must be there, in base64, and decode.
pub open spec fn request_outcome(envelope_xdr: Option<Seq<char>>, r: GratResult<HotPathRequest>) -> bool {
    match envelope_xdr {
        None => r matches Err(GratError::ReplayError(m)) && m@
            == "Transaction envelope XDR is missing from getTransaction"@,
        Some(t) => match base64_decoded(t) {
            Err(msg) => r matches Err(GratError::XdrDecodingFailed { xdr_type, reason }) && xdr_type@
                == "TransactionEnvelope"@ && reason@ == "invalid base64: "@ + msg,
            Ok(b) => match replay_envelope_v(b) {
                Err(msg) => r matches Err(GratError::XdrDecodingFailed { xdr_type, reason }) && xdr_type@
                    == "TransactionEnvelope"@ && reason@ == msg,
                Ok(v) => match r {
                    Err(e) => invocation_outcome(v, Err(e)),
                    Ok(req) => {
                        &&& invocation_outcome(v, Ok(req.invocation))
                        &&& req.config.cpu@ == base64_text(config_key_xdr(ConfigSetting::CpuCostParams))
                        &&& req.config.mem@ == base64_text(config_key_xdr(ConfigSetting::MemCostParams))
                        &&& req.config.archival@ == base64_text(config_key_xdr(ConfigSetting::StateArchival))
                        &&& texts(req.keys@) == texts(req.invocation.read_only_keys@) + texts(
                            req.invocation.read_write_keys@,
                        ) + seq![req.config.cpu@, req.config.mem@, req.config.archival@]
                    },
                },
            },
        },
    }
}

/// Reads the envelope of a recent transaction and works out what to ask
/// the network for to replay it.
pub fn hot_path_request(envelope_xdr: Option<&str>) -> (r: GratResult<HotPathRequest>)
    ensures
        request_outcome(
            match envelope_xdr {
                Some(t) => Some(t@),
                None => None,
            },
            r,
        ),
{
    let bytes = envelope_bytes(envelope_xdr)?;
    let env = match read_replay_envelope(bytes.as_slice()) {
        Ok(env) => env,
        Err(m) => return Err(GratError::XdrDecodingFailed { xdr_type: String::from_str("TransactionEnvelope"), reason: m }),
    };
    let invocation = prepare_invocation(env)?;
    let config = config_keys()?;
    let keys = keys_to_fetch(&invocation, &config);
    Ok(HotPathRequest { invocation, config, keys })
}

/// The network's base reserve in stroops, unchanged since genesis on every
/// public network.
pub const BASE_RESERVE_STROOPS: u32 = 5_000_000;

/// Everything the sandbox needs, beyond the ledger entries, to invoke a
/// transaction's host function.
pub struct InvocationInput {
    pub host_function_xdr: Vec<u8>,
    pub resources_xdr: Vec<u8>,
    pub source_account_xdr: Vec<u8>,
    pub auth_entries_xdr: Vec<Vec<u8>>,
    pub read_only_keys: Vec<String>,
    pub read_write_keys: Vec<String>,
    /// The live-until ledger of each footprint key that has one.
    pub ttl_by_key: KeyMap<u32>,
    pub cpu_cost_params: stellar_xdr::curr::ContractCostParams,
    pub mem_cost_params: stellar_xdr::curr::ContractCostParams,
    /// The SHA-256 of the network passphrase.
    pub network_id: [u8; 32],
    pub protocol_version: u32,
    pub timestamp: u64,
    pub base_reserve: u32,
    pub min_temp_entry_ttl: u32,
    pub min_persistent_entry_ttl: u32,
    pub max_entry_ttl: u32,
    /// The instruction budget the transaction was allowed at consensus,
    /// reused as the replay's CPU ceiling.
    pub cpu_instructions_limit: u64,
}

/// The ledger state a transaction is replayed against.
pub struct LedgerState {
    pub ledger_sequence: u32,
    /// The footprint's entries that exist, XDR by base64 key.
    pub entries: KeyMap<Vec<u8>>,
    pub reconstruction_path: ReconstructionPath,
    pub invocation: InvocationInput,
}

/// The ledger state recovered from recent ledgers: the invocation read
/// from the envelope, the entries sorted from the network's answer, the
/// network id, and the close time of the latest ledger (0 when unknown) as
/// the timestamp.
pub fn hot_path_state(
    ledger_sequence: u32,
    protocol_version: u32,
    latest_ledger_close_time: Option<u64>,
    network_passphrase: &str,
    invocation: Invocation,
    sorted: SortedEntries,
) -> (r: LedgerState)
    ensures
        r.ledger_sequence == ledger_sequence,
        r.reconstruction_path == ReconstructionPath::HotPath,
        r.entries == sorted.entries,
        r.invocation.ttl_by_key == sorted.ttl_by_key,
        r.invocation.host_function_xdr@ == invocation.host_function_xdr@,
        r.invocation.resources_xdr@ == invocation.resources_xdr@,
        r.invocation.source_account_xdr@ == invocation.source_account_xdr@,
        r.invocation.auth_entries_xdr@ == invocation.auth_entries_xdr@,
        r.invocation.read_only_keys@ == invocation.read_only_keys@,
        r.invocation.read_write_keys@ == invocation.read_write_keys@,
        r.invocation.cpu_cost_params == sorted.cpu_cost_params,
        r.invocation.mem_cost_params == sorted.mem_cost_params,
        r.invocation.network_id@ == sha256_of(network_passphrase.spec_bytes()),
        r.invocation.protocol_version == protocol_version,
        r.invocation.timestamp == match latest_ledger_close_time {
            Some(t) => t,
            None => 0,
        },
        r.invocation.base_reserve == BASE_RESERVE_STROOPS,
        r.invocation.min_temp_entry_ttl == sorted.min_temp_entry_ttl,
        r.invocation.min_persistent_entry_ttl == sorted.min_persistent_entry_ttl,
        r.invocation.max_entry_ttl == sorted.max_entry_ttl,
        r.invocation.cpu_instructions_limit == invocation.cpu_instructions_limit,
{
    let network_id = sha256(network_passphrase.as_bytes());
    let timestamp = match latest_ledger_close_time {
        Some(t) => t,
        None => 0,
    };
    LedgerState {
        ledger_sequence,
        entries: sorted.entries,
        reconstruction_path: ReconstructionPath::HotPath,
        invocation: InvocationInput {
            host_function_xdr: invocation.host_function_xdr,
            resources_xdr: invocation.resources_xdr,
            source_account_xdr: invocation.source_account_xdr,
            auth_entries_xdr: invocation.auth_entries_xdr,
            read_only_keys: invocation.read_only_keys,
            read_write_keys: invocation.read_write_keys,
            ttl_by_key: sorted.ttl_by_key,
            cpu_cost_params: sorted.cpu_cost_params,
            mem_cost_params: sorted.mem_cost_params,
            network_id,
            protocol_version,
            timestamp,
            base_reserve: BASE_RESERVE_STROOPS,
            min_temp_entry_ttl: sorted.min_temp_entry_ttl,
            min_persistent_entry_ttl: sorted.min_persistent_entry_ttl,
            max_entry_ttl: sorted.max_entry_ttl,
            cpu_instructions_limit: invocation.cpu_instructions_limit,
        },
    }
}

/// The base64 ledger keys to fetch for a replay: the footprint's
/// read-only keys, then its read-write keys, then the three configuration
/// settings.
pub fn keys_to_fetch(invocation: &Invocation, config: &ConfigKeys) -> (r: Vec<String>)
    ensures
        texts(r@) == texts(invocation.read_only_keys@) + texts(invocation.read_write_keys@) + seq![
            config.cpu@,
            config.mem@,
            config.archival@,
        ],
{
    let mut all: Vec<String> = Vec::new();
    let ghost target = texts(invocation.read_only_keys@) + texts(invocation.read_write_keys@);
    for i in 0..invocation.read_only_keys.len()
        invariant
            texts(all@) == texts(invocation.read_only_keys@).take(i as int),
    {
        let ghost before = texts(all@);
        let k = copy_text(invocation.read_only_keys[i].as_str());
        let ghost kv = k@;
        all.push(k);
        assert(texts(all@) =~= before.push(kv));
        assert(texts(invocation.read_only_keys@).take(i + 1) =~= texts(invocation.read_only_keys@).take(i as int).push(
            kv,
        ));
    }
    assert(texts(invocation.read_only_keys@).take(invocation.read_only_keys@.len() as int) =~= texts(
        invocation.read_only_keys@,
    ));
    for j in 0..invocation.read_write_keys.len()
        invariant
            texts(all@) == texts(invocation.read_only_keys@) + texts(invocation.read_write_keys@).take(j as int),
    {
        let ghost before = texts(all@);
        let k = copy_text(invocation.read_write_keys[j].as_str());
        let ghost kv = k@;
        all.push(k);
        assert(texts(all@) =~= before.push(kv));
        assert(texts(invocation.read_write_keys@).take(j + 1) =~= texts(invocation.read_write_keys@).take(j as int).push(
            kv,
        ));
        assert(texts(all@) =~= texts(invocation.read_only_keys@) + texts(invocation.read_write_keys@).take(j + 1));
    }
    assert(texts(invocation.read_write_keys@).take(invocation.read_write_keys@.len() as int) =~= texts(
        invocation.read_write_keys@,
    ));
    let ghost mid = texts(all@);
    all.push(copy_text(config.cpu.as_str()));
    all.push(copy_text(config.mem.as_str()));
    all.push(copy_text(config.archival.as_str()));
    assert(texts(all@) =~= mid + seq![config.cpu@, config.mem@, config.archival@]);
    all
}

} // verus!
