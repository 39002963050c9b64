//! Server-side mod payload sync for one client.
//!
//! The session decides whether the client may join, which payloads it must be
//! sent, in which order and how many chunks ahead, and when the sync has failed.
//! Reading payload files and sending messages is left to the caller: the session
//! says which chunks to send and is told what was sent.

use vstd::prelude::*;

use crate::clock;
use crate::limits::{CHUNK_ACK_TIMEOUT_SECS, MAX_CACHED_PAYLOAD_HASHES, MAX_CHUNKS_PER_TRANSFER};
use crate::master_announce::config::strings_view;
use crate::mods::sync_protocol::{
    JoinDecision, JoinDecisionView, JoinPolicy, ModDescriptor, ModJoinPolicy, ModSetDescriptor, ModSetResponse,
    ModSyncRejectReason, PayloadAck, PayloadBegin, PayloadEnd, SyncConfig,
};
use crate::text::{concat, decimal, owned, str_eq, u64_to_decimal};

verus! {

/// State of a client's mod sync session
#[derive(Debug, Clone, Copy, PartialEq, Eq, Structural)]
pub enum SyncState {
    /// Waiting for client's ModSetResponse
    AwaitingCapabilities,
    /// Evaluating client capabilities and deciding on sync
    Evaluating,
    /// Transferring payloads
    Transferring,
    /// All payloads transferred successfully
    Complete,
    /// Sync failed
    Failed,
}

/// Security abuse detection results
#[derive(Debug, Clone, Copy, PartialEq, Eq, Structural)]
pub enum SyncAbuseType {
    /// Chunk index out of bounds
    ChunkIndexOutOfBounds,
    /// Duplicate chunk received
    DuplicateChunk,
    /// Too many resend requests
    ResendSpam,
    /// Hash mismatch on verification
    HashMismatch,
    /// Cached hash count exceeds limit
    CachedHashLimitExceeded,
}

/// Information about a mod with client payload
#[derive(Debug)]
pub struct ModInfo {
    /// Mod ID
    pub id: String,
    /// Mod version
    pub version: String,
    /// SHA-256 hash of client payload
    pub client_payload_hash: String,
    /// Size of client payload in bytes
    pub client_payload_size: u64,
    /// Path to the payload ZIP file
    pub payload_path: String,
    /// Whether mod has network channels
    pub has_network_channels: bool,
}

/// What the session reads of a mod.
pub struct ModInfoView {
    pub id: Seq<char>,
    pub version: Seq<char>,
    pub hash: Seq<char>,
    pub size: u64,
    pub payload_path: Seq<char>,
    pub has_network_channels: bool,
}

impl View for ModInfo {
    type V = ModInfoView;

    open spec fn view(&self) -> ModInfoView {
        ModInfoView {
            id: self.id@,
            version: self.version@,
            hash: self.client_payload_hash@,
            size: self.client_payload_size,
            payload_path: self.payload_path@,
            has_network_channels: self.has_network_channels,
        }
    }
}

impl Clone for ModInfo {
    fn clone(&self) -> (m: ModInfo)
        ensures
            m@ == self@,
    {
        ModInfo {
            id: self.id.clone(),
            version: self.version.clone(),
            client_payload_hash: self.client_payload_hash.clone(),
            client_payload_size: self.client_payload_size,
            payload_path: self.payload_path.clone(),
            has_network_channels: self.has_network_channels,
        }
    }
}

/// The views of a list of mods.
pub open spec fn mods_view(v: Seq<ModInfo>) -> Seq<ModInfoView> {
    v.map_values(|m: ModInfo| m@)
}

/// The total payload size of a list of mods.
pub open spec fn total_size(mods: Seq<ModInfoView>) -> int
    decreases mods.len(),
{
    if mods.len() == 0 {
        0
    } else {
        total_size(mods.drop_last()) + mods.last().size
    }
}

/// Ids of the mods whose payload the client does not hold, in order.
pub open spec fn missing_ids(mods: Seq<ModInfoView>, cached: Seq<Seq<char>>) -> Seq<Seq<char>>
    decreases mods.len(),
{
    if mods.len() == 0 {
        Seq::empty()
    } else {
        let rest = missing_ids(mods.drop_last(), cached);
        if cached.contains(mods.last().hash) {
            rest
        } else {
            rest.push(mods.last().id)
        }
    }
}

/// The total payload size of the mods whose id is listed.
pub open spec fn listed_size(mods: Seq<ModInfoView>, ids: Seq<Seq<char>>) -> int
    decreases mods.len(),
{
    if mods.len() == 0 {
        0
    } else {
        listed_size(mods.drop_last(), ids) + if ids.contains(mods.last().id) {
            mods.last().size as int
        } else {
            0
        }
    }
}

/// Refusal when payload sync is required and the client cannot receive payloads.
pub open spec fn sync_required_msg() -> Seq<char> {
    "Server requires mod payload sync, but your client doesn't support it"@
}

/// Refusal when the mods need client support and the client cannot receive payloads.
pub open spec fn mods_required_msg() -> Seq<char> {
    "Server requires mod support, but your client doesn't support sync"@
}

/// Refusal when the payloads to send exceed the limit.
pub open spec fn too_large_msg(total: nat, limit: nat) -> Seq<char> {
    "Total payload size ("@ + decimal(total) + " bytes) exceeds limit ("@ + decimal(limit)
        + " bytes)"@
}

/// The decision on a client that can (or cannot) receive payloads and holds the
/// `cached` payload hashes: refused when payload sync is required and the client
/// cannot receive payloads; refused when server-only clients are not allowed,
/// the client cannot receive payloads and there are payloads; refused when the
/// payloads it lacks weigh more than the limit; else allowed, with the mods whose
/// payload it lacks to be sent (none when either side does not sync).
pub open spec fn join_decision(
    policy: JoinPolicy,
    config: SyncConfig,
    mods: Seq<ModInfoView>,
    supports_sync: bool,
    cached: Seq<Seq<char>>,
) -> JoinDecisionView {
    if policy.require_payload_sync && !supports_sync {
        JoinDecisionView { allowed: false, rejection_reason: Some(sync_required_msg()), mods_to_sync: Seq::empty() }
    } else if !policy.allow_server_only && !supports_sync && mods.len() > 0 {
        JoinDecisionView { allowed: false, rejection_reason: Some(mods_required_msg()), mods_to_sync: Seq::empty() }
    } else {
        let ids = if supports_sync && policy.allow_payload_sync {
            missing_ids(mods, cached)
        } else {
            Seq::empty()
        };
        let total = listed_size(mods, ids);
        if total > config.spec_max_payload_bytes() {
            JoinDecisionView {
                allowed: false,
                rejection_reason: Some(too_large_msg(total as nat, config.spec_max_payload_bytes() as nat)),
                mods_to_sync: Seq::empty(),
            }
        } else {
            JoinDecisionView { allowed: true, rejection_reason: None, mods_to_sync: ids }
        }
    }
}

proof fn lemma_total_size_prefix(m: Seq<ModInfoView>, i: int)
    requires
        0 <= i <= m.len(),
    ensures
        total_size(m.take(i)) <= total_size(m),
    decreases m.len(),
{
    if i < m.len() {
        assert(m.drop_last().take(i) =~= m.take(i));
        lemma_total_size_prefix(m.drop_last(), i);
    } else {
        assert(m.take(i) =~= m);
    }
}

proof fn lemma_listed_size_bounded(m: Seq<ModInfoView>, ids: Seq<Seq<char>>)
    ensures
        0 <= listed_size(m, ids) <= total_size(m),
    decreases m.len(),
{
    if m.len() > 0 {
        lemma_listed_size_bounded(m.drop_last(), ids);
    }
}

/// Whether one of the strings holds the characters of `s`.
fn contains_str(v: &Vec<String>, s: &str) -> (b: bool)
    ensures
        b == strings_view(v@).contains(s@),
{
    let mut i: usize = 0;
    while i < v.len()
        invariant
            i <= v@.len(),
            forall|k: int| 0 <= k < i ==> v@[k]@ != s@,
        decreases v@.len() - i,
    {
        if str_eq(v[i].as_str(), s) {
            assert(strings_view(v@)[i as int] == s@);
            return true;
        }
        i = i + 1;
    }
    assert forall|k: int| 0 <= k < strings_view(v@).len() implies strings_view(v@)[k] != s@ by {
        assert(strings_view(v@)[k] == v@[k]@);
    }
    false
}

/// Per-mod transfer state
#[derive(Debug)]
struct ModTransfer {
    /// Mod ID
    mod_id: String,
    /// Total payload size
    total_size: u64,
    /// SHA-256 hash of payload
    sha256: String,
    /// Path to payload ZIP
    payload_path: String,
    /// Total chunk count
    chunk_count: u32,
    /// Last acknowledged chunk index (-1 if none)
    last_acked_chunk: i32,
    /// Chunks currently in flight (not yet acked)
    inflight_chunks: Vec<u32>,
    /// Time of last chunk sent
    last_chunk_time: Option<std::time::Instant>,
    /// Whether transfer is complete
    complete: bool,
}

/// The state of one mod's transfer.
pub struct TransferView {
    pub total_size: u64,
    pub sha256: Seq<char>,
    /// Where the payload is read from
    pub payload_path: Seq<char>,
    pub chunk_count: u32,
    pub last_acked_chunk: i32,
    pub inflight: Seq<u32>,
    /// Some chunk of the payload has been sent.
    pub sent_any: bool,
    pub complete: bool,
}

impl ModTransfer {
    spec fn key(&self) -> Seq<char> {
        self.mod_id@
    }

    spec fn tv(&self) -> TransferView {
        TransferView {
            total_size: self.total_size,
            sha256: self.sha256@,
            payload_path: self.payload_path@,
            chunk_count: self.chunk_count,
            last_acked_chunk: self.last_acked_chunk,
            inflight: self.inflight_chunks@,
            sent_any: self.last_chunk_time is Some,
            complete: self.complete,
        }
    }
}

/// No two transfers are for the same mod.
spec fn keys_unique(ts: Seq<ModTransfer>) -> bool {
    forall|i: int, j: int| 0 <= i < ts.len() && 0 <= j < ts.len() && i != j ==> #[trigger] ts[i].key() != #[trigger] ts[j].key()
}

/// The transfers, by mod id.
spec fn transfer_map(ts: Seq<ModTransfer>) -> Map<Seq<char>, TransferView> {
    Map::new(
        |k: Seq<char>| exists|i: int| 0 <= i < ts.len() && ts[i].key() == k,
        |k: Seq<char>| ts[choose|i: int| 0 <= i < ts.len() && ts[i].key() == k].tv(),
    )
}

proof fn lemma_transfer_map_at(ts: Seq<ModTransfer>, i: int)
    requires
        keys_unique(ts),
        0 <= i < ts.len(),
    ensures
        transfer_map(ts).contains_key(ts[i].key()),
        transfer_map(ts)[ts[i].key()] == ts[i].tv(),
{
    let k = ts[i].key();
    assert(exists|j: int| 0 <= j < ts.len() && ts[j].key() == k);
    let j = choose|j: int| 0 <= j < ts.len() && ts[j].key() == k;
    assert(j == i);
}

proof fn lemma_transfer_map_absent(ts: Seq<ModTransfer>, k: Seq<char>)
    requires
        forall|i: int| 0 <= i < ts.len() ==> ts[i].key() != k,
    ensures
        !transfer_map(ts).contains_key(k),
{
}

proof fn lemma_transfer_map_update(ts: Seq<ModTransfer>, i: int, t: ModTransfer)
    requires
        keys_unique(ts),
        0 <= i < ts.len(),
        t.key() == ts[i].key(),
    ensures
        keys_unique(ts.update(i, t)),
        transfer_map(ts.update(i, t)) == transfer_map(ts).insert(t.key(), t.tv()),
{
    let us = ts.update(i, t);
    assert forall|a: int, b: int| 0 <= a < us.len() && 0 <= b < us.len() && a != b implies #[trigger] us[a].key() != #[trigger] us[b].key() by {
        assert(us[a].key() == ts[a].key());
        assert(us[b].key() == ts[b].key());
    }
    let m1 = transfer_map(us);
    let m2 = transfer_map(ts).insert(t.key(), t.tv());
    assert forall|k: Seq<char>| m1.contains_key(k) <==> m2.contains_key(k) by {
        if m1.contains_key(k) {
            let j = choose|j: int| 0 <= j < us.len() && us[j].key() == k;
            assert(ts[j].key() == k);
        }
        if m2.contains_key(k) && k != t.key() {
            let j = choose|j: int| 0 <= j < ts.len() && ts[j].key() == k;
            assert(us[j].key() == k);
        }
        if k == t.key() {
            assert(us[i].key() == k);
        }
    }
    assert forall|k: Seq<char>| #[trigger] m1.contains_key(k) implies m1[k] == m2[k] by {
        let j = choose|j: int| 0 <= j < us.len() && us[j].key() == k;
        lemma_transfer_map_at(us, j);
        if j == i {
            assert(k == t.key());
        } else {
            assert(ts[j].key() == k);
            lemma_transfer_map_at(ts, j);
        }
    }
    assert(m1 =~= m2);
}

proof fn lemma_transfer_map_push(ts: Seq<ModTransfer>, t: ModTransfer)
    requires
        keys_unique(ts),
        forall|i: int| 0 <= i < ts.len() ==> ts[i].key() != t.key(),
    ensures
        keys_unique(ts.push(t)),
        transfer_map(ts.push(t)) == transfer_map(ts).insert(t.key(), t.tv()),
{
    let us = ts.push(t);
    assert forall|a: int, b: int| 0 <= a < us.len() && 0 <= b < us.len() && a != b implies #[trigger] us[a].key() != #[trigger] us[b].key() by {
        if a < ts.len() {
            assert(us[a] == ts[a]);
        }
        if b < ts.len() {
            assert(us[b] == ts[b]);
        }
    }
    let m1 = transfer_map(us);
    let m2 = transfer_map(ts).insert(t.key(), t.tv());
    assert forall|k: Seq<char>| m1.contains_key(k) <==> m2.contains_key(k) by {
        if m1.contains_key(k) && k != t.key() {
            let j = choose|j: int| 0 <= j < us.len() && us[j].key() == k;
            assert(j < ts.len());
            assert(ts[j].key() == k);
        }
        if m2.contains_key(k) && k != t.key() {
            let j = choose|j: int| 0 <= j < ts.len() && ts[j].key() == k;
            assert(us[j].key() == k);
        }
        if k == t.key() {
            assert(us[ts.len() as int].key() == k);
        }
    }
    assert forall|k: Seq<char>| #[trigger] m1.contains_key(k) implies m1[k] == m2[k] by {
        let j = choose|j: int| 0 <= j < us.len() && us[j].key() == k;
        lemma_transfer_map_at(us, j);
        if j < ts.len() {
            assert(us[j] == ts[j]);
            lemma_transfer_map_at(ts, j);
        }
    }
    assert(m1 =~= m2);
}

/// Appends the chunks of `sent` to `v`.
fn append_chunks(v: &mut Vec<u32>, sent: &Vec<u32>)
    ensures
        final(v)@ == old(v)@ + sent@,
{
    let ghost v0 = v@;
    let mut i: usize = 0;
    while i < sent.len()
        invariant
            i <= sent@.len(),
            v@ == v0 + sent@.take(i as int),
        decreases sent@.len() - i,
    {
        v.push(sent[i]);
        i = i + 1;
        assert(v@ =~= v0 + sent@.take(i as int));
    }
    assert(sent@.take(sent@.len() as int) =~= sent@);
}

/// The chunks of `v` after `idx`, in order.
fn keep_chunks_above(v: &Vec<u32>, idx: u32) -> (r: Vec<u32>)
    ensures
        r@ == keep_above(v@, idx),
{
    let mut r: Vec<u32> = Vec::new();
    let mut i: usize = 0;
    while i < v.len()
        invariant
            i <= v@.len(),
            r@ == keep_above(v@.take(i as int), idx),
        decreases v@.len() - i,
    {
        assert(v@.take(i + 1).drop_last() =~= v@.take(i as int));
        if v[i] > idx {
            r.push(v[i]);
        }
        i = i + 1;
    }
    assert(v@.take(v@.len() as int) =~= v@);
    r
}

/// Server-side mod sync session for a single client
pub struct SyncSession {
    /// Current state
    state: SyncState,
    /// Server's join policy
    join_policy: JoinPolicy,
    /// Sync configuration
    sync_config: SyncConfig,
    /// Mods with client payloads
    mods_with_payloads: Vec<ModInfo>,
    /// Client's cached payload hashes (from ModSetResponse)
    client_cached_hashes: Vec<String>,
    /// Whether client supports sync
    client_supports_sync: bool,
    /// Mods that need to be synced
    mods_to_sync: Vec<String>,
    /// Current mod transfer states, one per mod id
    transfers: Vec<ModTransfer>,
    /// Transfer queue (mod IDs in order)
    transfer_queue: Vec<String>,
    /// Current mod being transferred
    current_mod: Option<String>,
    /// Session start time
    start_time: std::time::Instant,
    /// Failure reason if state is Failed
    failure_reason: Option<ModSyncRejectReason>,
    /// Failure message
    failure_message: Option<String>,
    /// Detected abuse type (if any)
    detected_abuse: Option<SyncAbuseType>,
}

/// The observable state of a [`SyncSession`].
pub struct SyncSessionView {
    pub state: SyncState,
    pub policy: JoinPolicy,
    pub config: SyncConfig,
    pub mods: Seq<ModInfoView>,
    pub cached: Seq<Seq<char>>,
    pub supports_sync: bool,
    pub mods_to_sync: Seq<Seq<char>>,
    pub transfers: Map<Seq<char>, TransferView>,
    pub queue: Seq<Seq<char>>,
    pub current: Option<Seq<char>>,
    pub failure_reason: Option<ModSyncRejectReason>,
    pub failure_message: Option<Seq<char>>,
    pub abuse: Option<SyncAbuseType>,
}

/// The characters of an optional string.
pub open spec fn opt_view(s: Option<String>) -> Option<Seq<char>> {
    match s {
        Some(x) => Some(x@),
        None => None,
    }
}

/// The first mod with the given id.
pub open spec fn first_with_id(mods: Seq<ModInfoView>, id: Seq<char>) -> Option<ModInfoView>
    decreases mods.len(),
{
    if mods.len() == 0 {
        None
    } else if mods[0].id == id {
        Some(mods[0])
    } else {
        first_with_id(mods.drop_first(), id)
    }
}

/// The number of chunks of `chunk_size` bytes that hold `size` bytes, as a `u32`.
pub open spec fn chunk_count_of(size: u64, chunk_size: u64) -> u32 {
    ((size as int + chunk_size as int - 1) / chunk_size as int) as u32
}

/// A transfer of the payload of `m` in `chunk_count` chunks, none sent yet.
pub open spec fn fresh_transfer(m: ModInfoView, chunk_count: u32) -> TransferView {
    TransferView {
        total_size: m.size,
        sha256: m.hash,
        payload_path: m.payload_path,
        chunk_count,
        last_acked_chunk: -1i32,
        inflight: Seq::empty(),
        sent_any: false,
        complete: false,
    }
}

/// The transfers and queue after setting up the transfer of each listed mod,
/// in order: a mod is found by its id (the first with it) and queued, unless
/// its payload would take more chunks than a transfer may have.
pub open spec fn set_up(
    transfers: Map<Seq<char>, TransferView>,
    queue: Seq<Seq<char>>,
    mods: Seq<ModInfoView>,
    config: SyncConfig,
    ids: Seq<Seq<char>>,
) -> (Map<Seq<char>, TransferView>, Seq<Seq<char>>)
    decreases ids.len(),
{
    if ids.len() == 0 {
        (transfers, queue)
    } else {
        let (t, q) = set_up(transfers, queue, mods, config, ids.drop_last());
        let id = ids.last();
        match first_with_id(mods, id) {
            None => (t, q),
            Some(m) => {
                let cc = chunk_count_of(m.size, config.spec_chunk_size_bytes());
                if cc > MAX_CHUNKS_PER_TRANSFER {
                    (t, q)
                } else {
                    (t.insert(id, fresh_transfer(m, cc)), q.push(id))
                }
            },
        }
    }
}

/// Refusal of a response that comes at the wrong time.
pub open spec fn unexpected_response_msg() -> Seq<char> {
    "Unexpected ModSetResponse"@
}

/// Failure when the client announces too many cached payloads.
pub open spec fn cached_limit_msg(count: nat) -> Seq<char> {
    "Cached hash count "@ + decimal(count) + " exceeds limit "@ + decimal(MAX_CACHED_PAYLOAD_HASHES as nat)
}

/// Whether answering a response that says `supports_sync` and `cached` sets up
/// payload transfers.
pub open spec fn response_sets_up(s: SyncSessionView, supports_sync: bool, cached: Seq<Seq<char>>) -> bool {
    let d = join_decision(s.policy, s.config, s.mods, supports_sync, cached);
    &&& s.state == SyncState::AwaitingCapabilities
    &&& cached.len() <= MAX_CACHED_PAYLOAD_HASHES
    &&& d.allowed
    &&& d.mods_to_sync.len() > 0
}

/// The session and the decision after the client's response: a response out of
/// turn is refused and changes nothing; one announcing more cached payloads than
/// allowed fails the session as abuse; otherwise the join is decided and, when
/// allowed, the transfers of the mods to sync are set up (the session is complete
/// when none is queued), and when refused the session fails.
pub open spec fn after_response(s: SyncSessionView, supports_sync: bool, cached: Seq<Seq<char>>) -> (
    SyncSessionView,
    JoinDecisionView,
) {
    if s.state != SyncState::AwaitingCapabilities {
        (
            s,
            JoinDecisionView {
                allowed: false,
                rejection_reason: Some(unexpected_response_msg()),
                mods_to_sync: Seq::empty(),
            },
        )
    } else if cached.len() > MAX_CACHED_PAYLOAD_HASHES {
        let msg = cached_limit_msg(cached.len());
        (
            SyncSessionView {
                state: SyncState::Failed,
                abuse: Some(SyncAbuseType::CachedHashLimitExceeded),
                failure_reason: Some(ModSyncRejectReason::ClientRejected),
                failure_message: Some(msg),
                ..s
            },
            JoinDecisionView { allowed: false, rejection_reason: Some(msg), mods_to_sync: Seq::empty() },
        )
    } else {
        let d = join_decision(s.policy, s.config, s.mods, supports_sync, cached);
        let s1 = SyncSessionView { supports_sync, cached, ..s };
        if d.allowed {
            let (t, q) = set_up(s.transfers, s.queue, s.mods, s.config, d.mods_to_sync);
            (
                SyncSessionView {
                    mods_to_sync: d.mods_to_sync,
                    transfers: t,
                    queue: q,
                    state: if q.len() == 0 {
                        SyncState::Complete
                    } else {
                        SyncState::Transferring
                    },
                    ..s1
                },
                d,
            )
        } else {
            (
                SyncSessionView {
                    state: SyncState::Failed,
                    failure_reason: Some(ModSyncRejectReason::ClientRejected),
                    failure_message: d.rejection_reason,
                    ..s1
                },
                d,
            )
        }
    }
}

/// The session after it is asked for the next payload to begin: while
/// transferring and with no current mod, the next queued mod becomes current.
pub open spec fn after_payload_begin(s: SyncSessionView) -> SyncSessionView {
    if s.state == SyncState::Transferring && s.current is None && s.queue.len() > 0 {
        SyncSessionView { current: Some(s.queue[0]), queue: s.queue.drop_first(), ..s }
    } else {
        s
    }
}

/// The mod whose payload begins: the current one, once made current, when
/// transferring and when it has a transfer.
pub open spec fn beginning_mod(s: SyncSessionView) -> Option<Seq<char>> {
    let s1 = after_payload_begin(s);
    if s.state != SyncState::Transferring {
        None
    } else {
        match s1.current {
            Some(id) => if s1.transfers.contains_key(id) {
                Some(id)
            } else {
                None
            },
            None => None,
        }
    }
}

/// The transfer that chunks go to: the current mod's, while transferring.
pub open spec fn active_transfer(s: SyncSessionView) -> Option<Seq<char>> {
    if s.state != SyncState::Transferring {
        None
    } else {
        match s.current {
            Some(id) => if s.transfers.contains_key(id) {
                Some(id)
            } else {
                None
            },
            None => None,
        }
    }
}

/// The first chunk after the acknowledged ones.
pub open spec fn next_chunk_start(t: TransferView) -> u32 {
    (t.last_acked_chunk + 1) as u32
}

/// The first chunk not yet sent: after the acknowledged and the in-flight ones.
pub open spec fn next_unsent(t: TransferView) -> int {
    next_chunk_start(t) + t.inflight.len()
}

/// Whether working out the next chunks of the active transfer overflows.
pub open spec fn chunk_plan_overflows(s: SyncSessionView) -> bool {
    match active_transfer(s) {
        Some(id) => {
            let t = s.transfers[id];
            t.last_acked_chunk == i32::MAX || next_unsent(t) > u32::MAX
        },
        None => false,
    }
}

/// The chunks to send next: those after the acknowledged and in-flight ones,
/// as many as keep `max_inflight_chunks` in flight, and none past the last.
pub open spec fn chunk_plan(s: SyncSessionView) -> Seq<u32> {
    match active_transfer(s) {
        Some(id) => {
            let t = s.transfers[id];
            let can_send = if s.config.max_inflight_chunks >= t.inflight.len() {
                s.config.max_inflight_chunks - t.inflight.len()
            } else {
                0
            };
            let first = next_unsent(t);
            let n = if first >= t.chunk_count {
                0
            } else if first + can_send <= t.chunk_count {
                can_send
            } else {
                t.chunk_count - first
            };
            Seq::new(n as nat, |k: int| (first + k) as u32)
        },
        None => Seq::empty(),
    }
}

/// Failure when a payload chunk could not be read.
pub open spec fn read_failure_msg(error: Seq<char>) -> Seq<char> {
    "Failed to read payload: "@ + error
}

/// The session after the chunks `sent` of the active transfer went out, the
/// reading of the next one failing with `read_error` if it is given: the chunks
/// are in flight, and a read failure fails the session.
pub open spec fn after_chunk_batch(s: SyncSessionView, sent: Seq<u32>, read_error: Option<Seq<char>>) -> SyncSessionView {
    match active_transfer(s) {
        Some(id) => {
            let t = s.transfers[id];
            match read_error {
                Some(e) => SyncSessionView {
                    transfers: s.transfers.insert(id, TransferView { inflight: t.inflight + sent, ..t }),
                    state: SyncState::Failed,
                    failure_reason: Some(ModSyncRejectReason::Timeout),
                    failure_message: Some(read_failure_msg(e)),
                    ..s
                },
                None => SyncSessionView {
                    transfers: s.transfers.insert(
                        id,
                        TransferView { inflight: t.inflight + sent, sent_any: t.sent_any || sent.len() > 0, ..t },
                    ),
                    ..s
                },
            }
        },
        None => s,
    }
}

/// The in-flight chunks after `idx`.
pub open spec fn keep_above(s: Seq<u32>, idx: u32) -> Seq<u32>
    decreases s.len(),
{
    if s.len() == 0 {
        s
    } else if s.last() > idx {
        keep_above(s.drop_last(), idx).push(s.last())
    } else {
        keep_above(s.drop_last(), idx)
    }
}

/// Whether acknowledging `idx` of an incomplete transfer overflows.
pub open spec fn ack_overflows(s: SyncSessionView, mod_id: Seq<char>, idx: u32, complete: bool) -> bool {
    &&& active_transfer(s) == Some(mod_id)
    &&& !complete
    &&& idx == u32::MAX
}

/// The session after the client acknowledges the chunks of `mod_id` up to `idx`
/// (`complete` when it holds the whole payload), and whether the payload ends:
/// only the active transfer's acknowledgements count; the chunks up to `idx`
/// leave the in-flight ones; when the payload is complete or its last chunk is
/// acknowledged, the transfer completes, no mod is current, and with an empty
/// queue the session is complete.
pub open spec fn after_ack(s: SyncSessionView, mod_id: Seq<char>, idx: u32, complete: bool) -> (SyncSessionView, bool) {
    if active_transfer(s) != Some(mod_id) {
        (s, false)
    } else {
        let t = s.transfers[mod_id];
        let t1 = TransferView { last_acked_chunk: idx as i32, inflight: keep_above(t.inflight, idx), ..t };
        if complete || idx + 1 >= t.chunk_count {
            (
                SyncSessionView {
                    transfers: s.transfers.insert(mod_id, TransferView { complete: true, ..t1 }),
                    current: None,
                    state: if s.queue.len() == 0 {
                        SyncState::Complete
                    } else {
                        s.state
                    },
                    ..s
                },
                true,
            )
        } else {
            (SyncSessionView { transfers: s.transfers.insert(mod_id, t1), ..s }, false)
        }
    }
}

/// The session after a whole-session age of `session_nanos` and, for the active
/// transfer, `chunk_nanos` since its last chunk went out, and whether it timed out:
/// past the transfer timeout the session fails; past the acknowledgement timeout
/// with chunks in flight it fails too.
pub open spec fn after_timeout_check(s: SyncSessionView, session_nanos: u128, chunk_nanos: u128) -> (SyncSessionView, bool) {
    if session_nanos > s.config.transfer_timeout_secs as int * 1_000_000_000 {
        (
            SyncSessionView {
                state: SyncState::Failed,
                failure_reason: Some(ModSyncRejectReason::Timeout),
                failure_message: Some("Transfer timeout"@),
                ..s
            },
            true,
        )
    } else {
        match s.current {
            Some(id) => if s.transfers.contains_key(id) && s.transfers[id].sent_any && chunk_nanos
                > CHUNK_ACK_TIMEOUT_SECS as int * 1_000_000_000 && s.transfers[id].inflight.len() > 0 {
                (
                    SyncSessionView {
                        state: SyncState::Failed,
                        failure_reason: Some(ModSyncRejectReason::Timeout),
                        failure_message: Some("Chunk acknowledgement timeout"@),
                        ..s
                    },
                    true,
                )
            } else {
                (s, false)
            },
            None => (s, false),
        }
    }
}

/// The characters of an optional string slice.
pub open spec fn opt_str_view(s: Option<&str>) -> Option<Seq<char>> {
    match s {
        Some(x) => Some(x@),
        None => None,
    }
}

impl View for SyncSession {
    type V = SyncSessionView;

    closed spec fn view(&self) -> SyncSessionView {
        SyncSessionView {
            state: self.state,
            policy: self.join_policy,
            config: self.sync_config,
            mods: mods_view(self.mods_with_payloads@),
            cached: strings_view(self.client_cached_hashes@),
            supports_sync: self.client_supports_sync,
            mods_to_sync: strings_view(self.mods_to_sync@),
            transfers: transfer_map(self.transfers@),
            queue: strings_view(self.transfer_queue@),
            current: opt_view(self.current_mod),
            failure_reason: self.failure_reason,
            failure_message: opt_view(self.failure_message),
            abuse: self.detected_abuse,
        }
    }
}

impl SyncSession {
    /// The session's internal consistency: one transfer per mod id, and the
    /// payload sizes add up within a `u64`.
    pub closed spec fn wf(&self) -> bool {
        &&& keys_unique(self.transfers@)
        &&& total_size(mods_view(self.mods_with_payloads@)) <= u64::MAX
    }

    /// Create a new sync session
    pub fn new(join_policy: JoinPolicy, sync_config: SyncConfig, mods_with_payloads: Vec<ModInfo>) -> (s: SyncSession)
        requires
            total_size(mods_view(mods_with_payloads@)) <= u64::MAX,
        ensures
            s.wf(),
            s@ == (SyncSessionView {
                state: SyncState::AwaitingCapabilities,
                policy: join_policy,
                config: sync_config,
                mods: mods_view(mods_with_payloads@),
                cached: Seq::empty(),
                supports_sync: false,
                mods_to_sync: Seq::empty(),
                transfers: Map::empty(),
                queue: Seq::empty(),
                current: None,
                failure_reason: None,
                failure_message: None,
                abuse: None,
            }),
    {
        let s = SyncSession {
            state: SyncState::AwaitingCapabilities,
            join_policy,
            sync_config,
            mods_with_payloads,
            client_cached_hashes: Vec::new(),
            client_supports_sync: false,
            mods_to_sync: Vec::new(),
            transfers: Vec::new(),
            transfer_queue: Vec::new(),
            current_mod: None,
            start_time: clock::now(),
            failure_reason: None,
            failure_message: None,
            detected_abuse: None,
        };
        assert(s@.cached =~= Seq::empty());
        assert(s@.mods_to_sync =~= Seq::empty());
        assert(s@.queue =~= Seq::empty());
        assert(s@.transfers =~= Map::empty());
        s
    }

    /// Evaluate whether to allow the client to join
    fn evaluate_join(&self) -> (d: JoinDecision)
        requires
            self.wf(),
        ensures
            d@ == join_decision(self@.policy, self@.config, self@.mods, self@.supports_sync, self@.cached),
    {
        let ghost mv = self@.mods;
        if self.join_policy.require_payload_sync && !self.client_supports_sync {
            let d = JoinDecision {
                allowed: false,
                rejection_reason: Some(
                    owned("Server requires mod payload sync, but your client doesn't support it"),
                ),
                mods_to_sync: Vec::new(),
            };
            assert(d@.mods_to_sync =~= Seq::empty());
            return d;
        }
        if !self.join_policy.allow_server_only && !self.client_supports_sync
            && self.mods_with_payloads.len() > 0 {
            let d = JoinDecision {
                allowed: false,
                rejection_reason: Some(
                    owned("Server requires mod support, but your client doesn't support sync"),
                ),
                mods_to_sync: Vec::new(),
            };
            assert(d@.mods_to_sync =~= Seq::empty());
            return d;
        }
        let mut ids: Vec<String> = Vec::new();
        if self.client_supports_sync && self.join_policy.allow_payload_sync {
            let mut i: usize = 0;
            while i < self.mods_with_payloads.len()
                invariant
                    mv == self@.mods,
                    i <= mv.len(),
                    mv.len() == self.mods_with_payloads@.len(),
                    strings_view(ids@) == missing_ids(mv.take(i as int), self@.cached),
                decreases mv.len() - i,
            {
                let m = &self.mods_with_payloads[i];
                assert(mv[i as int] == m@);
                assert(mv.take(i + 1).drop_last() =~= mv.take(i as int));
                if !contains_str(&self.client_cached_hashes, m.client_payload_hash.as_str()) {
                    ids.push(m.id.clone());
                }
                i = i + 1;
                assert(strings_view(ids@) =~= missing_ids(mv.take(i as int), self@.cached));
            }
            assert(mv.take(mv.len() as int) =~= mv);
        } else {
            assert(strings_view(ids@) =~= Seq::empty());
        }
        let ghost idv = strings_view(ids@);
        let mut total: u64 = 0;
        let mut i: usize = 0;
        while i < self.mods_with_payloads.len()
            invariant
                mv == self@.mods,
                i <= mv.len(),
                mv.len() == self.mods_with_payloads@.len(),
                idv == strings_view(ids@),
                total == listed_size(mv.take(i as int), idv),
                total_size(mv) <= u64::MAX,
            decreases mv.len() - i,
        {
            let m = &self.mods_with_payloads[i];
            assert(mv[i as int] == m@);
            assert(mv.take(i + 1).drop_last() =~= mv.take(i as int));
            proof {
                lemma_listed_size_bounded(mv.take(i + 1), idv);
                lemma_total_size_prefix(mv, i + 1);
            }
            if contains_str(&ids, m.id.as_str()) {
                total = total + m.client_payload_size;
            }
            i = i + 1;
        }
        assert(mv.take(mv.len() as int) =~= mv);
        let max_payload_bytes = self.sync_config.max_payload_bytes();
        if total > max_payload_bytes {
            let a = u64_to_decimal(total);
            let b = u64_to_decimal(max_payload_bytes);
            let m1 = concat("Total payload size (", a.as_str());
            let m2 = concat(m1.as_str(), " bytes) exceeds limit (");
            let m3 = concat(m2.as_str(), b.as_str());
            let msg = concat(m3.as_str(), " bytes)");
            let d = JoinDecision { allowed: false, rejection_reason: Some(msg), mods_to_sync: Vec::new() };
            assert(d@.mods_to_sync =~= Seq::empty());
            return d;
        }
        JoinDecision { allowed: true, rejection_reason: None, mods_to_sync: ids }
    }

    /// The index of the first mod with the given id.
    fn find_mod(&self, id: &str) -> (r: Option<usize>)
        ensures
            match r {
                Some(i) => i < self@.mods.len() && first_with_id(self@.mods, id@) == Some(self@.mods[i as int]),
                None => first_with_id(self@.mods, id@) is None,
            },
    {
        let ghost mv = self@.mods;
        let mut i: usize = 0;
        assert(mv.subrange(0, mv.len() as int) =~= mv);
        while i < self.mods_with_payloads.len()
            invariant
                mv == self@.mods,
                mv.len() == self.mods_with_payloads@.len(),
                i <= mv.len(),
                first_with_id(mv.subrange(i as int, mv.len() as int), id@) == first_with_id(mv, id@),
            decreases mv.len() - i,
        {
            let ghost sub = mv.subrange(i as int, mv.len() as int);
            assert(sub[0] == mv[i as int]);
            assert(mv[i as int] == self.mods_with_payloads@[i as int]@);
            if str_eq(self.mods_with_payloads[i].id.as_str(), id) {
                return Some(i);
            }
            assert(sub.drop_first() =~= mv.subrange(i + 1, mv.len() as int));
            i = i + 1;
        }
        assert(mv.subrange(i as int, mv.len() as int).len() == 0);
        None
    }

    /// The index of the transfer of the given mod.
    fn find_transfer(&self, id: &str) -> (r: Option<usize>)
        ensures
            match r {
                Some(i) => i < self.transfers@.len() && self.transfers@[i as int].key() == id@,
                None => forall|k: int| 0 <= k < self.transfers@.len() ==> self.transfers@[k].key() != id@,
            },
    {
        let mut i: usize = 0;
        while i < self.transfers.len()
            invariant
                i <= self.transfers@.len(),
                forall|k: int| 0 <= k < i ==> self.transfers@[k].key() != id@,
            decreases self.transfers@.len() - i,
        {
            if str_eq(self.transfers[i].mod_id.as_str(), id) {
                return Some(i);
            }
            i = i + 1;
        }
        None
    }

    /// Set up transfer states for mods that need syncing
    fn setup_transfers(&mut self)
        requires
            old(self).wf(),
            old(self)@.config.chunk_size_kb > 0 || old(self)@.mods_to_sync.len() == 0,
        ensures
            final(self).wf(),
            ({
                let (t, q) = set_up(
                    old(self)@.transfers,
                    old(self)@.queue,
                    old(self)@.mods,
                    old(self)@.config,
                    old(self)@.mods_to_sync,
                );
                final(self)@ == SyncSessionView { transfers: t, queue: q, ..old(self)@ }
            }),
    {
        let ghost s0 = self@;
        let ghost ids = self@.mods_to_sync;
        let mut i: usize = 0;
        while i < self.mods_to_sync.len()
            invariant
                self.wf(),
                i <= ids.len(),
                ids == strings_view(self.mods_to_sync@),
                s0.config.chunk_size_kb > 0 || ids.len() == 0,
                ({
                    let (t, q) = set_up(s0.transfers, s0.queue, s0.mods, s0.config, ids.take(i as int));
                    self@ == SyncSessionView { transfers: t, queue: q, ..s0 }
                }),
            decreases ids.len() - i,
        {
            let id = self.mods_to_sync[i].clone();
            assert(id@ == ids[i as int]);
            assert(ids.take(i + 1).drop_last() =~= ids.take(i as int));
            assert(ids.take(i + 1).last() == ids[i as int]);
            match self.find_mod(id.as_str()) {
                None => {},
                Some(mi) => {
                    let chunk_size = self.sync_config.chunk_size_bytes();
                    let size = self.mods_with_payloads[mi].client_payload_size;
                    let wide: u128 = (size as u128 + chunk_size as u128 - 1) / chunk_size as u128;
                    let chunk_count: u32 = #[verifier::truncate] (wide as u32);
                    if chunk_count as usize > MAX_CHUNKS_PER_TRANSFER {
                    } else {
                        let m = &self.mods_with_payloads[mi];
                        let transfer = ModTransfer {
                            mod_id: id.clone(),
                            total_size: m.client_payload_size,
                            sha256: m.client_payload_hash.clone(),
                            payload_path: m.payload_path.clone(),
                            chunk_count,
                            last_acked_chunk: -1,
                            inflight_chunks: Vec::new(),
                            last_chunk_time: None,
                            complete: false,
                        };
                        assert(transfer.tv() == fresh_transfer(m@, chunk_count)) by {
                            assert(transfer.inflight_chunks@ =~= Seq::<u32>::empty());
                        }
                        let ghost old_ts = self.transfers@;
                        match self.find_transfer(id.as_str()) {
                            Some(j) => {
                                proof {
                                    lemma_transfer_map_update(old_ts, j as int, transfer);
                                }
                                self.transfers.set(j, transfer);
                            },
                            None => {
                                proof {
                                    lemma_transfer_map_push(old_ts, transfer);
                                }
                                self.transfers.push(transfer);
                            },
                        }
                        let ghost old_q = self.transfer_queue@;
                        self.transfer_queue.push(id);
                        assert(strings_view(self.transfer_queue@) =~= strings_view(old_q).push(ids[i as int]));
                    }
                },
            }
            i = i + 1;
        }
        assert(ids.take(ids.len() as int) =~= ids);
    }

    /// Handle client's ModSetResponse.
    ///
    /// A response that announces more cached payloads than
    /// `MAX_CACHED_PAYLOAD_HASHES` fails the session and is recorded as abuse.
    pub fn handle_response(&mut self, response: ModSetResponse) -> (d: JoinDecision)
        requires
            old(self).wf(),
            old(self)@.config.chunk_size_kb > 0 || !response_sets_up(
                old(self)@,
                response.supports_sync,
                strings_view(response.cached_hashes@),
            ),
        ensures
            final(self).wf(),
            (final(self)@, d@) == after_response(
                old(self)@,
                response.supports_sync,
                strings_view(response.cached_hashes@),
            ),
    {
        if self.state != SyncState::AwaitingCapabilities {
            let d = JoinDecision {
                allowed: false,
                rejection_reason: Some(owned("Unexpected ModSetResponse")),
                mods_to_sync: Vec::new(),
            };
            assert(d@.mods_to_sync =~= Seq::empty());
            return d;
        }
        let count = response.cached_hashes.len();
        if count > MAX_CACHED_PAYLOAD_HASHES {
            let a = u64_to_decimal(count as u64);
            let b = u64_to_decimal(MAX_CACHED_PAYLOAD_HASHES as u64);
            let m1 = concat("Cached hash count ", a.as_str());
            let m2 = concat(m1.as_str(), " exceeds limit ");
            let msg = concat(m2.as_str(), b.as_str());
            self.state = SyncState::Failed;
            self.detected_abuse = Some(SyncAbuseType::CachedHashLimitExceeded);
            self.failure_reason = Some(ModSyncRejectReason::ClientRejected);
            self.failure_message = Some(msg.clone());
            let d = JoinDecision { allowed: false, rejection_reason: Some(msg), mods_to_sync: Vec::new() };
            assert(d@.mods_to_sync =~= Seq::empty());
            return d;
        }
        self.client_supports_sync = response.supports_sync;
        self.client_cached_hashes = response.cached_hashes;
        self.state = SyncState::Evaluating;

        let decision = self.evaluate_join();
        if decision.allowed {
            self.mods_to_sync = crate::master_announce::config::copy_strings(&decision.mods_to_sync);
            self.setup_transfers();
            if self.transfer_queue.len() == 0 {
                self.state = SyncState::Complete;
            } else {
                self.state = SyncState::Transferring;
            }
        } else {
            self.state = SyncState::Failed;
            self.failure_reason = Some(ModSyncRejectReason::ClientRejected);
            self.failure_message = match &decision.rejection_reason {
                Some(r) => Some(r.clone()),
                None => None,
            };
        }
        decision
    }

    /// Generate PayloadBegin for the next mod to transfer: the next queued mod
    /// becomes current when there is none.
    pub fn next_payload_begin(&mut self) -> (b: Option<PayloadBegin>)
        requires
            old(self).wf(),
        ensures
            final(self).wf(),
            final(self)@ == after_payload_begin(old(self)@),
            match beginning_mod(old(self)@) {
                Some(id) => (b matches Some(pb) && {
                    let t = old(self)@.transfers[id];
                    &&& pb.mod_id@ == id
                    &&& pb.total_size == t.total_size
                    &&& pb.chunk_count == t.chunk_count
                    &&& pb.sha256@ == t.sha256
                }),
                None => b is None,
            },
    {
        if self.state != SyncState::Transferring {
            return None;
        }
        if self.current_mod.is_none() && self.transfer_queue.len() > 0 {
            let ghost q = self.transfer_queue@;
            let id = self.transfer_queue.remove(0);
            assert(strings_view(self.transfer_queue@) =~= strings_view(q).drop_first());
            self.current_mod = Some(id);
        }
        let id = match &self.current_mod {
            Some(id) => id.clone(),
            None => {
                return None;
            },
        };
        match self.find_transfer(id.as_str()) {
            None => {
                proof {
                    lemma_transfer_map_absent(self.transfers@, id@);
                }
                None
            },
            Some(j) => {
                proof {
                    lemma_transfer_map_at(self.transfers@, j as int);
                }
                let t = &self.transfers[j];
                Some(
                    PayloadBegin {
                        mod_id: t.mod_id.clone(),
                        total_size: t.total_size,
                        chunk_count: t.chunk_count,
                        sha256: t.sha256.clone(),
                    },
                )
            },
        }
    }

    /// The index of the active transfer: the current mod's, while transferring.
    fn active_index(&self) -> (r: Option<usize>)
        requires
            self.wf(),
        ensures
            match active_transfer(self@) {
                Some(id) => (r matches Some(j) && j < self.transfers@.len() && self.transfers@[j as int].key()
                    == id && self@.transfers[id] == self.transfers@[j as int].tv()),
                None => r is None,
            },
    {
        if self.state != SyncState::Transferring {
            return None;
        }
        let id = match &self.current_mod {
            Some(id) => id.clone(),
            None => {
                return None;
            },
        };
        match self.find_transfer(id.as_str()) {
            None => {
                proof {
                    lemma_transfer_map_absent(self.transfers@, id@);
                }
                None
            },
            Some(j) => {
                proof {
                    lemma_transfer_map_at(self.transfers@, j as int);
                }
                Some(j)
            },
        }
    }

    /// The chunks of the current payload to send next, keeping at most
    /// `max_inflight_chunks` unacknowledged. The caller reads and sends them,
    /// then reports with [`SyncSession::record_chunk_batch`].
    pub fn chunks_to_send(&self) -> (v: Vec<u32>)
        requires
            self.wf(),
            !chunk_plan_overflows(self@),
        ensures
            v@ == chunk_plan(self@),
    {
        let j = match self.active_index() {
            Some(j) => j,
            None => {
                return Vec::new();
            },
        };
        let t = &self.transfers[j];
        let ghost tv = t.tv();
        let start: u32 = (t.last_acked_chunk + 1) as u32;
        let inflight: usize = t.inflight_chunks.len();
        let max_inflight: usize = self.sync_config.max_inflight_chunks as usize;
        let can_send: usize = if max_inflight >= inflight {
            max_inflight - inflight
        } else {
            0
        };
        let first: u32 = start + inflight as u32;
        let count: u32 = t.chunk_count;
        let mut v: Vec<u32> = Vec::new();
        let mut i: usize = 0;
        while i < can_send && (first as u64) + (i as u64) < count as u64
            invariant
                i <= can_send,
                first as int == next_unsent(tv),
                i > 0 ==> first + i <= count,
                v@ == Seq::new(i as nat, |k: int| (first + k) as u32),
            decreases can_send - i,
        {
            let idx: u32 = first + i as u32;
            v.push(idx);
            i = i + 1;
            assert(v@ =~= Seq::new(i as nat, |k: int| (first + k) as u32));
        }
        v
    }

    /// Whether working out the next chunks would overflow a chunk index (the
    /// client acknowledged an index past what a chunk count can reach).
    pub fn chunk_plan_would_overflow(&self) -> (b: bool)
        requires
            self.wf(),
        ensures
            b == chunk_plan_overflows(self@),
    {
        match self.active_index() {
            Some(j) => {
                let t = &self.transfers[j];
                if t.last_acked_chunk == i32::MAX {
                    true
                } else {
                    let start: u32 = (t.last_acked_chunk + 1) as u32;
                    (start as u128) + (t.inflight_chunks.len() as u128) > u32::MAX as u128
                }
            },
            None => false,
        }
    }

    /// Whether acknowledging `ack` would overflow the chunk index.
    pub fn ack_would_overflow(&self, ack: &PayloadAck) -> (b: bool)
        requires
            self.wf(),
        ensures
            b == ack_overflows(self@, ack.mod_id@, ack.last_chunk_index, ack.complete),
    {
        match self.active_index() {
            Some(j) => str_eq(self.transfers[j].mod_id.as_str(), ack.mod_id.as_str()) && !ack.complete
                && ack.last_chunk_index == u32::MAX,
            None => false,
        }
    }

    /// Record that the chunks `sent` of the current payload went out, and that
    /// reading the next one failed with `read_error` if it is given.
    pub fn record_chunk_batch(&mut self, sent: &Vec<u32>, read_error: Option<&str>)
        requires
            old(self).wf(),
        ensures
            final(self).wf(),
            final(self)@ == after_chunk_batch(old(self)@, sent@, opt_str_view(read_error)),
    {
        let j = match self.active_index() {
            Some(j) => j,
            None => {
                return;
            },
        };
        let ghost ts = self.transfers@;
        let mut t = self.transfers.remove(j);
        let ghost tv = t.tv();
        append_chunks(&mut t.inflight_chunks, sent);
        match read_error {
            Some(e) => {
                self.state = SyncState::Failed;
                self.failure_reason = Some(ModSyncRejectReason::Timeout);
                self.failure_message = Some(concat("Failed to read payload: ", e));
            },
            None => {
                if sent.len() > 0 {
                    t.last_chunk_time = Some(clock::now());
                }
            },
        }
        proof {
            lemma_transfer_map_update(ts, j as int, t);
        }
        self.transfers.insert(j, t);
        assert(self.transfers@ =~= ts.update(j as int, t));
    }

    /// Handle PayloadAck from client
    pub fn handle_ack(&mut self, ack: PayloadAck) -> (e: Option<PayloadEnd>)
        requires
            old(self).wf(),
            !ack_overflows(old(self)@, ack.mod_id@, ack.last_chunk_index, ack.complete),
        ensures
            final(self).wf(),
            (final(self)@, e is Some) == after_ack(old(self)@, ack.mod_id@, ack.last_chunk_index, ack.complete),
            e matches Some(end) ==> (end.mod_id@ == ack.mod_id@ && end.success && end.error is None),
    {
        let j = match self.active_index() {
            Some(j) => j,
            None => {
                return None;
            },
        };
        if !str_eq(self.transfers[j].mod_id.as_str(), ack.mod_id.as_str()) {
            return None;
        }
        let ghost ts = self.transfers@;
        let mut t = self.transfers.remove(j);
        t.last_acked_chunk = ack.last_chunk_index as i32;
        t.inflight_chunks = keep_chunks_above(&t.inflight_chunks, ack.last_chunk_index);
        if ack.complete || ack.last_chunk_index + 1 >= t.chunk_count {
            t.complete = true;
            proof {
                lemma_transfer_map_update(ts, j as int, t);
            }
            self.transfers.insert(j, t);
            assert(self.transfers@ =~= ts.update(j as int, t));
            self.current_mod = None;
            if self.transfer_queue.len() == 0 {
                self.state = SyncState::Complete;
            }
            return Some(PayloadEnd { mod_id: ack.mod_id, success: true, error: None });
        }
        proof {
            lemma_transfer_map_update(ts, j as int, t);
        }
        self.transfers.insert(j, t);
        assert(self.transfers@ =~= ts.update(j as int, t));
        None
    }

    /// Handle client confirming payload complete (with verification result):
    /// a failed verification fails the session.
    pub fn handle_payload_complete(&mut self, mod_id: &str, success: bool, error: Option<&str>)
        ensures
            final(self)@ == if success {
                old(self)@
            } else {
                SyncSessionView {
                    state: SyncState::Failed,
                    failure_reason: Some(ModSyncRejectReason::HashMismatch),
                    failure_message: opt_str_view(error),
                    ..old(self)@
                }
            },
    {
        if !success {
            self.state = SyncState::Failed;
            self.failure_reason = Some(ModSyncRejectReason::HashMismatch);
            self.failure_message = match error {
                Some(e) => Some(owned(e)),
                None => None,
            };
        }
    }

    /// Check for timeout, the session being `session_nanos` old and the current
    /// transfer's last chunk `chunk_nanos` old.
    pub fn check_timeout_after(&mut self, session_nanos: u128, chunk_nanos: u128) -> (timed_out: bool)
        requires
            old(self).wf(),
        ensures
            final(self).wf(),
            (final(self)@, timed_out) == after_timeout_check(old(self)@, session_nanos, chunk_nanos),
    {
        let timeout: u128 = self.sync_config.transfer_timeout_secs as u128 * 1_000_000_000;
        if session_nanos > timeout {
            self.state = SyncState::Failed;
            self.failure_reason = Some(ModSyncRejectReason::Timeout);
            self.failure_message = Some(owned("Transfer timeout"));
            return true;
        }
        let id = match &self.current_mod {
            Some(id) => id.clone(),
            None => {
                return false;
            },
        };
        match self.find_transfer(id.as_str()) {
            None => {
                proof {
                    lemma_transfer_map_absent(self.transfers@, id@);
                }
                false
            },
            Some(j) => {
                proof {
                    lemma_transfer_map_at(self.transfers@, j as int);
                }
                let t = &self.transfers[j];
                if t.last_chunk_time.is_some() && chunk_nanos > CHUNK_ACK_TIMEOUT_SECS as u128 * 1_000_000_000
                    && t.inflight_chunks.len() > 0 {
                    self.state = SyncState::Failed;
                    self.failure_reason = Some(ModSyncRejectReason::Timeout);
                    self.failure_message = Some(owned("Chunk acknowledgement timeout"));
                    true
                } else {
                    false
                }
            },
        }
    }

    /// Check for timeout now.
    pub fn check_timeout(&mut self) -> (timed_out: bool)
        requires
            old(self).wf(),
        ensures
            final(self).wf(),
            exists|session_nanos: u128, chunk_nanos: u128|
                (final(self)@, timed_out) == #[trigger] after_timeout_check(old(self)@, session_nanos, chunk_nanos),
    {
        let session_nanos = clock::nanos_since(&self.start_time);
        let mut chunk_nanos: u128 = 0;
        if let Some(id) = &self.current_mod {
            if let Some(j) = self.find_transfer(id.as_str()) {
                if let Some(sent_at) = &self.transfers[j].last_chunk_time {
                    chunk_nanos = clock::nanos_since(sent_at);
                }
            }
        }
        self.check_timeout_after(session_nanos, chunk_nanos)
    }

    /// Get failure info if session failed: the reason (timeout when none was
    /// recorded) and the message (empty when none was recorded).
    pub fn failure_info(&self) -> (r: Option<(ModSyncRejectReason, String)>)
        ensures
            self@.state == SyncState::Failed ==> (r matches Some((reason, msg)) && reason == match self@.failure_reason {
                Some(x) => x,
                None => ModSyncRejectReason::Timeout,
            } && msg@ == match self@.failure_message {
                Some(m) => m,
                None => Seq::empty(),
            }),
            self@.state != SyncState::Failed ==> r is None,
    {
        if self.state == SyncState::Failed {
            let reason = match self.failure_reason {
                Some(x) => x,
                None => ModSyncRejectReason::Timeout,
            };
            let msg = match &self.failure_message {
                Some(m) => m.clone(),
                None => String::new(),
            };
            Some((reason, msg))
        } else {
            None
        }
    }

    /// Get session duration, in milliseconds.
    pub fn duration(&self) -> u64 {
        clock::millis_since(&self.start_time)
    }

    /// Get number of mods being synced
    pub fn mods_to_sync_count(&self) -> (n: usize)
        ensures
            n == self@.mods_to_sync.len(),
    {
        self.mods_to_sync.len()
    }

    /// Get detected abuse type (if any), for security metrics.
    pub fn detected_abuse(&self) -> (a: Option<SyncAbuseType>)
        ensures
            a == self@.abuse,
    {
        self.detected_abuse
    }

    /// The mod currently being transferred.
    pub fn current_mod_id(&self) -> (r: Option<String>)
        ensures
            opt_view(r) == self@.current,
    {
        match &self.current_mod {
            Some(id) => Some(id.clone()),
            None => None,
        }
    }

    /// The payload file of the active transfer, for reading its chunks: the
    /// path stored for the mod being transferred.
    pub fn current_payload_path(&self) -> (p: Option<String>)
        requires
            self.wf(),
        ensures
            match active_transfer(self@) {
                Some(id) => p matches Some(s) && s@ == self@.transfers[id].payload_path,
                None => p is None,
            },
    {
        match self.active_index() {
            Some(j) => Some(self.transfers[j].payload_path.clone()),
            None => None,
        }
    }

    /// The size of a payload chunk, in bytes.
    pub fn chunk_size_bytes(&self) -> (n: u64)
        ensures
            n == self@.config.spec_chunk_size_bytes(),
    {
        self.sync_config.chunk_size_bytes()
    }

    /// Build the ModSetDescriptor to send to the client: every mod with its
    /// payload hash and size, the total payload size and the join policy.
    pub fn build_mod_set_descriptor(&self) -> (d: ModSetDescriptor)
        requires
            self.wf(),
        ensures
            d.mods@.len() == self@.mods.len(),
            forall|i: int|
                0 <= i < self@.mods.len() ==> {
                    let md = #[trigger] d.mods@[i];
                    let m = self@.mods[i];
                    &&& md.id@ == m.id
                    &&& md.version@ == m.version
                    &&& md.client_payload_hash matches Some(h) && h@ == m.hash
                    &&& md.client_payload_size == m.size
                    &&& md.has_network_channels == m.has_network_channels
                },
            d.total_payload_size == total_size(self@.mods),
            d.policy == (ModJoinPolicy {
                allow_server_only: self@.policy.allow_server_only,
                allow_payload_sync: self@.policy.allow_payload_sync,
                require_payload_sync: self@.policy.require_payload_sync,
            }),
    {
        let ghost mv = self@.mods;
        let mut mods: Vec<ModDescriptor> = Vec::new();
        let mut total: u64 = 0;
        let mut i: usize = 0;
        while i < self.mods_with_payloads.len()
            invariant
                mv == self@.mods,
                mv.len() == self.mods_with_payloads@.len(),
                i <= mv.len(),
                mods@.len() == i,
                total == total_size(mv.take(i as int)),
                total_size(mv) <= u64::MAX,
                forall|k: int|
                    0 <= k < i ==> {
                        let md = #[trigger] mods@[k];
                        let m = mv[k];
                        &&& md.id@ == m.id
                        &&& md.version@ == m.version
                        &&& md.client_payload_hash matches Some(h) && h@ == m.hash
                        &&& md.client_payload_size == m.size
                        &&& md.has_network_channels == m.has_network_channels
                    },
            decreases mv.len() - i,
        {
            let m = &self.mods_with_payloads[i];
            assert(mv[i as int] == m@);
            assert(mv.take(i + 1).drop_last() =~= mv.take(i as int));
            proof {
                lemma_total_size_prefix(mv, i + 1);
            }
            mods.push(
                ModDescriptor {
                    id: m.id.clone(),
                    version: m.version.clone(),
                    client_payload_hash: Some(m.client_payload_hash.clone()),
                    client_payload_size: m.client_payload_size,
                    has_network_channels: m.has_network_channels,
                },
            );
            total = total + m.client_payload_size;
            i = i + 1;
        }
        assert(mv.take(mv.len() as int) =~= mv);
        ModSetDescriptor {
            mods,
            total_payload_size: total,
            policy: ModJoinPolicy {
                allow_server_only: self.join_policy.allow_server_only,
                allow_payload_sync: self.join_policy.allow_payload_sync,
                require_payload_sync: self.join_policy.require_payload_sync,
            },
        }
    }

    /// Get current session state
    pub fn state(&self) -> (st: SyncState)
        ensures
            st == self@.state,
    {
        self.state
    }

    /// Check if session is complete (success or failure)
    pub fn is_finished(&self) -> (b: bool)
        ensures
            b == (self@.state == SyncState::Complete || self@.state == SyncState::Failed),
    {
        match self.state {
            SyncState::Complete | SyncState::Failed => true,
            _ => false,
        }
    }
}

} // verus!

verus! {

/// A finished session (complete or failed) stays finished, whatever it is
/// asked next.
pub proof fn law_finished_stays_finished(
    s: SyncSessionView,
    supports_sync: bool,
    cached: Seq<Seq<char>>,
    sent: Seq<u32>,
    read_error: Option<Seq<char>>,
    mod_id: Seq<char>,
    idx: u32,
    complete: bool,
    session_nanos: u128,
    chunk_nanos: u128,
)
    requires
        s.state == SyncState::Complete || s.state == SyncState::Failed,
    ensures
        ({
            let f = |t: SyncSessionView| t.state == SyncState::Complete || t.state == SyncState::Failed;
            &&& f(after_response(s, supports_sync, cached).0)
            &&& f(after_payload_begin(s))
            &&& f(after_chunk_batch(s, sent, read_error))
            &&& f(after_ack(s, mod_id, idx, complete).0)
            &&& f(after_timeout_check(s, session_nanos, chunk_nanos).0)
        }),
{
}

proof fn lemma_missing_ids_lacking(mods: Seq<ModInfoView>, cached: Seq<Seq<char>>, id: Seq<char>)
    requires
        missing_ids(mods, cached).contains(id),
    ensures
        exists|i: int| 0 <= i < mods.len() && #[trigger] mods[i].id == id && !cached.contains(mods[i].hash),
    decreases mods.len(),
{
    let rest = missing_ids(mods.drop_last(), cached);
    if rest.contains(id) {
        lemma_missing_ids_lacking(mods.drop_last(), cached, id);
        let i = choose|i: int| 0 <= i < mods.drop_last().len() && #[trigger] mods.drop_last()[i].id == id && !cached.contains(mods.drop_last()[i].hash);
        assert(mods[i] == mods.drop_last()[i]);
    } else {
        let k = choose|k: int| 0 <= k < missing_ids(mods, cached).len() && missing_ids(mods, cached)[k] == id;
        assert(k == rest.len());
        assert(mods[mods.len() - 1].id == id);
    }
}

/// An admitted client is sent only payloads it lacks: every mod to sync is one
/// whose payload hash is not among the client's cached hashes.
pub proof fn law_only_missing_payloads_sent(
    policy: JoinPolicy,
    config: SyncConfig,
    mods: Seq<ModInfoView>,
    supports_sync: bool,
    cached: Seq<Seq<char>>,
    id: Seq<char>,
)
    requires
        join_decision(policy, config, mods, supports_sync, cached).mods_to_sync.contains(id),
    ensures
        exists|i: int| 0 <= i < mods.len() && #[trigger] mods[i].id == id && !cached.contains(mods[i].hash),
{
    let d = join_decision(policy, config, mods, supports_sync, cached);
    if supports_sync && policy.allow_payload_sync && d.allowed {
        lemma_missing_ids_lacking(mods, cached, id);
    } else {
        assert(d.mods_to_sync.len() == 0);
    }
}

/// Nothing is sent to a client that cannot receive payloads, nor when the
/// server does not offer them.
pub proof fn law_no_sync_without_support(
    policy: JoinPolicy,
    config: SyncConfig,
    mods: Seq<ModInfoView>,
    supports_sync: bool,
    cached: Seq<Seq<char>>,
)
    requires
        !supports_sync || !policy.allow_payload_sync,
    ensures
        join_decision(policy, config, mods, supports_sync, cached).mods_to_sync.len() == 0,
{
}

/// An admitted client is never sent more than the payload limit in all.
pub proof fn law_join_respects_payload_limit(
    policy: JoinPolicy,
    config: SyncConfig,
    mods: Seq<ModInfoView>,
    supports_sync: bool,
    cached: Seq<Seq<char>>,
)
    requires
        join_decision(policy, config, mods, supports_sync, cached).allowed,
    ensures
        listed_size(mods, join_decision(policy, config, mods, supports_sync, cached).mods_to_sync)
            <= config.spec_max_payload_bytes(),
{
}

/// A response announcing more cached payloads than allowed is refused, with
/// its reason, and fails the session as abuse.
pub proof fn law_cached_hash_abuse_refused(s: SyncSessionView, supports_sync: bool, cached: Seq<Seq<char>>)
    requires
        s.state == SyncState::AwaitingCapabilities,
        cached.len() > MAX_CACHED_PAYLOAD_HASHES,
    ensures
        ({
            let (s1, d) = after_response(s, supports_sync, cached);
            &&& !d.allowed
            &&& d.rejection_reason == Some(cached_limit_msg(cached.len()))
            &&& s1.state == SyncState::Failed
            &&& s1.abuse == Some(SyncAbuseType::CachedHashLimitExceeded)
        }),
{
}

/// Sending the planned chunks never puts more than `max_inflight_chunks`
/// chunks in flight, and each planned chunk exists and is not in flight yet.
pub proof fn law_inflight_bounded(s: SyncSessionView)
    requires
        active_transfer(s) is Some,
        s.transfers[active_transfer(s)->0].inflight.len() <= s.config.max_inflight_chunks,
    ensures
        ({
            let id = active_transfer(s)->0;
            let plan = chunk_plan(s);
            let t = s.transfers[id];
            &&& after_chunk_batch(s, plan, None).transfers[id].inflight.len() <= s.config.max_inflight_chunks
            &&& forall|k: int| 0 <= k < plan.len() ==> #[trigger] plan[k] < t.chunk_count
        }),
{
    let id = active_transfer(s)->0;
    let t = s.transfers[id];
    let plan = chunk_plan(s);
    assert forall|k: int| 0 <= k < plan.len() implies #[trigger] plan[k] < t.chunk_count by {
        assert(plan[k] == (next_unsent(t) + k) as u32);
        assert(next_unsent(t) + k < t.chunk_count);
    }
}

/// Transfer timeouts, with ages in whole seconds: a session older than its
/// transfer timeout fails with reason Timeout and the message "Transfer
/// timeout", whatever its chunks; a younger one fails only when the current
/// mod has chunks in flight and its last chunk is older than the chunk
/// acknowledgement timeout (30 s), with "Chunk acknowledgement timeout";
/// otherwise nothing changes. A session that has timed out would have timed
/// out at any greater ages too.
pub proof fn law_timeout_by_age(
    s: SyncSessionView,
    session_secs: u64,
    chunk_secs: u64,
    later_session_secs: u64,
    later_chunk_secs: u64,
)
    requires
        session_secs <= later_session_secs,
        chunk_secs <= later_chunk_secs,
    ensures
        ({
            let (post, timed_out) = after_timeout_check(
                s,
                (session_secs * 1_000_000_000) as u128,
                (chunk_secs * 1_000_000_000) as u128,
            );
            let chunk_stalled = s.current matches Some(id) && s.transfers.contains_key(id)
                && s.transfers[id].sent_any && s.transfers[id].inflight.len() > 0
                && chunk_secs > CHUNK_ACK_TIMEOUT_SECS;
            &&& session_secs > s.config.transfer_timeout_secs ==> {
                &&& timed_out
                &&& post.state == SyncState::Failed
                &&& post.failure_reason == Some(ModSyncRejectReason::Timeout)
                &&& post.failure_message == Some("Transfer timeout"@)
            }
            &&& session_secs <= s.config.transfer_timeout_secs && chunk_stalled ==> {
                &&& timed_out
                &&& post.state == SyncState::Failed
                &&& post.failure_reason == Some(ModSyncRejectReason::Timeout)
                &&& post.failure_message == Some("Chunk acknowledgement timeout"@)
            }
            &&& session_secs <= s.config.transfer_timeout_secs && !chunk_stalled ==> {
                &&& !timed_out
                &&& post == s
            }
            &&& timed_out ==> after_timeout_check(
                s,
                (later_session_secs * 1_000_000_000) as u128,
                (later_chunk_secs * 1_000_000_000) as u128,
            ).1
        }),
{
}

} // verus!
