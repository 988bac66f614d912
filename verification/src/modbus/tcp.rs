//! Modbus TCP session state: connection metadata, MBAP transaction
//! bookkeeping, and header checks.

use std::collections::HashMap;
use vstd::prelude::*;
use vstd::std_specs::iter::IteratorSpec;

use crate::modbus::protocol::{
    mbap_of,
    protocol_id_message,
    be16_at,
    tcp_accepts,
    tcp_decodes,
    tcp_parse_defined,
    MbapHeader,
    ModbusError,
    ModbusPdu,
    ModbusTcpFrame,
    DEFAULT_PORT,
};
use crate::text::{decimal, push_decimal, push_str};

verus! {

broadcast use vstd::std_specs::hash::group_hash_axioms;

/// Modbus TCP connection state.
#[derive(Debug, Clone, PartialEq, Eq)]
pub enum ConnectionState {
    /// Not connected
    Disconnected,
    /// Connection in progress
    Connecting,
    /// Successfully connected
    Connected,
    /// Connection error
    Error(String),
}

/// The text shown for a connection state.
pub open spec fn connection_state_text(s: ConnectionState) -> Seq<char> {
    match s {
        ConnectionState::Disconnected => "Disconnected"@,
        ConnectionState::Connecting => "Connecting"@,
        ConnectionState::Connected => "Connected"@,
        ConnectionState::Error(e) => "Error: "@ + e@,
    }
}

impl Default for ConnectionState {
    fn default() -> (r: Self)
        ensures
            r == ConnectionState::Disconnected,
    {
        ConnectionState::Disconnected
    }
}

impl ConnectionState {
    /// The state as display text, e.g. `"Error: timeout"`.
    pub fn to_string(&self) -> (r: String)
        ensures
            r@ == connection_state_text(*self),
    {
        let mut s = String::new();
        match self {
            ConnectionState::Disconnected => push_str(&mut s, "Disconnected"),
            ConnectionState::Connecting => push_str(&mut s, "Connecting"),
            ConnectionState::Connected => push_str(&mut s, "Connected"),
            ConnectionState::Error(e) => {
                push_str(&mut s, "Error: ");
                push_str(&mut s, e.as_str());
            },
        }
        assert(s@ =~= connection_state_text(*self));
        s
    }
}

/// Connection metadata for Modbus TCP. Socket addresses are held in their
/// text form (`ip:port`).
#[derive(Debug, Clone)]
pub struct ConnectionInfo {
    /// Remote socket address
    pub remote_addr: String,
    /// Local socket address
    pub local_addr: String,
    /// Connection state
    pub state: ConnectionState,
    /// Last activity time (epoch millis)
    pub last_activity: u64,
    /// Number of bytes sent
    pub bytes_sent: u64,
    /// Number of bytes received
    pub bytes_received: u64,
}

impl ConnectionInfo {
    /// Metadata of a fresh connection: connected, no traffic yet.
    pub fn new(remote_addr: String, local_addr: String) -> (r: Self)
        ensures
            r.remote_addr == remote_addr,
            r.local_addr == local_addr,
            r.state == ConnectionState::Connected,
            r.last_activity == 0,
            r.bytes_sent == 0,
            r.bytes_received == 0,
    {
        Self {
            remote_addr,
            local_addr,
            state: ConnectionState::Connected,
            last_activity: 0,
            bytes_sent: 0,
            bytes_received: 0,
        }
    }
}

// ============================================================================
// Transactions
// ============================================================================

/// A pending transaction entry.
#[derive(Debug)]
pub struct Transaction {
    /// Request PDU
    pub pdu: ModbusPdu,
    /// Unit ID from the request
    pub unit_id: u8,
    /// Request timestamp (epoch millis)
    pub request_time: u64,
    /// Expected response length (MBAP length field)
    pub expected_len: usize,
}

/// `a` and `b` hold the same request data.
pub open spec fn same_transaction(a: Transaction, b: Transaction) -> bool {
    &&& a.pdu.function_code == b.pdu.function_code
    &&& a.pdu.data@ == b.pdu.data@
    &&& a.unit_id == b.unit_id
    &&& a.request_time == b.request_time
    &&& a.expected_len == b.expected_len
}

impl Clone for Transaction {
    fn clone(&self) -> (r: Self)
        ensures
            same_transaction(r, *self),
    {
        Transaction {
            pdu: self.pdu.clone(),
            unit_id: self.unit_id,
            request_time: self.request_time,
            expected_len: self.expected_len,
        }
    }
}

/// Milliseconds since the Unix epoch from the system clock
/// (`SystemTime::now().duration_since(UNIX_EPOCH)`, 0 when the clock reads
/// earlier than the epoch). Nothing is stated of the value: it is the time.
#[verifier::external_body]
fn current_epoch_ms() -> u64 {
    std::time::SystemTime::now()
        .duration_since(std::time::UNIX_EPOCH)
        .map(|d| d.as_millis() as u64)
        .unwrap_or(0)
}

/// `after` is `before` with exactly `before.len() / 2` entries removed, each
/// of them no newer than any entry that stays.
pub open spec fn evicted_oldest_half(before: Map<u16, Transaction>, after: Map<u16, Transaction>) -> bool {
    &&& after.dom().subset_of(before.dom())
    &&& forall|k: u16| #[trigger] after.contains_key(k) ==> after[k] == before[k]
    &&& after.dom().len() == before.dom().len() - before.dom().len() / 2
    &&& forall|gone: u16, kept: u16|
        before.contains_key(gone) && !after.contains_key(gone) && #[trigger] after.contains_key(kept)
            ==> #[trigger] before[gone].request_time <= before[kept].request_time
}

/// How many pending transactions of `n` are kept when a new one begins
/// with the given capacity: the newer half once the capacity is reached.
pub open spec fn kept_count(n: nat, capacity: usize) -> int {
    if n >= capacity {
        n - n / 2
    } else {
        n as int
    }
}

/// Transaction ID manager for Modbus TCP: hands out transaction ids and
/// remembers pending requests by id.
#[derive(Debug)]
pub struct TransactionManager {
    /// Next transaction ID (wraps around after 65535)
    next_id: u16,
    /// Pending transactions by id
    pending: HashMap<u16, Transaction>,
    /// Maximum pending transactions before the oldest half is dropped
    max_pending: usize,
}

impl TransactionManager {
    /// The id the next request will get.
    pub closed spec fn spec_next_id(&self) -> u16 {
        self.next_id
    }

    /// The pending transactions by id.
    pub closed spec fn pending_map(&self) -> Map<u16, Transaction> {
        self.pending@
    }

    /// The number of pending transactions at which the oldest half is dropped.
    pub closed spec fn capacity(&self) -> usize {
        self.max_pending
    }

    /// A manager with no pending transaction, first id 1, capacity 100.
    pub fn new() -> (r: Self)
        ensures
            r.spec_next_id() == 1,
            r.pending_map() == Map::<u16, Transaction>::empty(),
            r.capacity() == 100,
    {
        Self { next_id: 1, pending: HashMap::new(), max_pending: 100 }
    }

    /// Hand out a transaction id: ids count up from 1 and wrap after 65535.
    pub fn next_transaction_id(&mut self) -> (r: u16)
        ensures
            r == old(self).spec_next_id(),
            final(self).spec_next_id() == (if r == 65535 { 0 } else { (r + 1) as u16 }),
            final(self).pending_map() == old(self).pending_map(),
            final(self).capacity() == old(self).capacity(),
    {
        let id = self.next_id;
        self.next_id = if id == 65535 { 0 } else { id + 1 };
        id
    }

    /// Register a new pending transaction under a fresh id and return the
    /// id, stamped with the current time. When the capacity is reached, the
    /// oldest half of the pending transactions is dropped first.
    pub fn begin_transaction(&mut self, pdu: ModbusPdu, unit_id: u8, expected_response_len: usize) -> (r:
        u16)
        ensures
            r == old(self).spec_next_id(),
            final(self).spec_next_id() == (if r == 65535 { 0 } else { (r + 1) as u16 }),
            final(self).capacity() == old(self).capacity(),
            final(self).pending_map().contains_key(r),
            final(self).pending_map()[r].pdu == pdu,
            final(self).pending_map()[r].unit_id == unit_id,
            final(self).pending_map()[r].expected_len == expected_response_len,
            old(self).pending_map().dom().len() < old(self).capacity() ==> final(self).pending_map()
                == old(self).pending_map().insert(r, final(self).pending_map()[r]),
            old(self).pending_map().dom().len() >= old(self).capacity() ==> exists|kept: Map<u16, Transaction>|
                #[trigger] evicted_oldest_half(old(self).pending_map(), kept)
                    && final(self).pending_map() == kept.insert(r, final(self).pending_map()[r]),
            final(self).pending_map().dom().finite(),
            final(self).pending_map().dom().len() <= kept_count(
                old(self).pending_map().dom().len(),
                old(self).capacity(),
            ) + 1,
            !old(self).pending_map().contains_key(r) ==> final(self).pending_map().dom().len()
                == kept_count(old(self).pending_map().dom().len(), old(self).capacity()) + 1,
            old(self).pending_map().dom().len() <= old(self).capacity() && old(self).capacity() >= 2
                ==> final(self).pending_map().dom().len() <= final(self).capacity(),
    {
        let now = current_epoch_ms();
        self.begin_transaction_at(pdu, unit_id, expected_response_len, now)
    }

    /// Register a new pending transaction made at `request_time` (epoch
    /// milliseconds) under a fresh id and return the id. When the capacity
    /// is reached, the oldest half of the pending transactions is dropped
    /// first.
    pub fn begin_transaction_at(
        &mut self,
        pdu: ModbusPdu,
        unit_id: u8,
        expected_response_len: usize,
        request_time: u64,
    ) -> (r: u16)
        ensures
            r == old(self).spec_next_id(),
            final(self).spec_next_id() == (if r == 65535 { 0 } else { (r + 1) as u16 }),
            final(self).capacity() == old(self).capacity(),
            final(self).pending_map().contains_key(r),
            final(self).pending_map()[r] == (Transaction {
                pdu,
                unit_id,
                request_time,
                expected_len: expected_response_len,
            }),
            old(self).pending_map().dom().len() < old(self).capacity() ==> final(self).pending_map()
                == old(self).pending_map().insert(r, final(self).pending_map()[r]),
            old(self).pending_map().dom().len() >= old(self).capacity() ==> exists|kept: Map<u16, Transaction>|
                #[trigger] evicted_oldest_half(old(self).pending_map(), kept)
                    && final(self).pending_map() == kept.insert(r, final(self).pending_map()[r]),
            final(self).pending_map().dom().finite(),
            final(self).pending_map().dom().len() <= kept_count(
                old(self).pending_map().dom().len(),
                old(self).capacity(),
            ) + 1,
            !old(self).pending_map().contains_key(r) ==> final(self).pending_map().dom().len()
                == kept_count(old(self).pending_map().dom().len(), old(self).capacity()) + 1,
            old(self).pending_map().dom().len() <= old(self).capacity() && old(self).capacity() >= 2
                ==> final(self).pending_map().dom().len() <= final(self).capacity(),
    {
        let id = self.next_transaction_id();
        let transaction = Transaction { pdu, unit_id, request_time, expected_len: expected_response_len };
        let ghost before = self.pending@;
        proof {
            assert(before.dom().finite());
        }
        if self.pending.len() >= self.max_pending {
            evict_oldest_half(&mut self.pending);
        }
        let ghost kept = self.pending@;
        proof {
            assert(kept.dom().finite());
        }
        self.pending.insert(id, transaction);
        proof {
            if before.dom().len() >= self.max_pending {
                assert(evicted_oldest_half(before, kept));
            } else {
                assert(kept == before);
            }
            assert(kept.dom().len() == kept_count(before.dom().len(), self.max_pending));
            assert(self.pending@.dom() =~= kept.dom().insert(id));
            if !before.contains_key(id) {
                assert(!kept.contains_key(id));
            }
        }
        id
    }

    /// Complete a transaction: remove and return it.
    pub fn end_transaction(&mut self, transaction_id: u16) -> (r: Option<Transaction>)
        ensures
            final(self).pending_map() == old(self).pending_map().remove(transaction_id),
            final(self).pending_map().dom().finite(),
            final(self).spec_next_id() == old(self).spec_next_id(),
            final(self).capacity() == old(self).capacity(),
            r == old(self).pending_map().get(transaction_id),
    {
        self.pending.remove(&transaction_id)
    }

    /// A copy of the pending transaction with the given id.
    pub fn get_transaction(&self, transaction_id: u16) -> (r: Option<Transaction>)
        ensures
            r.is_some() == self.pending_map().contains_key(transaction_id),
            r matches Some(t) ==> same_transaction(t, self.pending_map()[transaction_id]),
    {
        match self.pending.get(&transaction_id) {
            Some(t) => Some(t.clone()),
            None => None,
        }
    }

    /// Number of pending transactions.
    pub fn pending_count(&self) -> (r: usize)
        ensures
            r == self.pending_map().dom().len(),
            self.pending_map().dom().finite(),
    {
        self.pending.len()
    }

    /// Drop all pending transactions.
    pub fn clear(&mut self)
        ensures
            final(self).pending_map() == Map::<u16, Transaction>::empty(),
            final(self).spec_next_id() == old(self).spec_next_id(),
            final(self).capacity() == old(self).capacity(),
    {
        self.pending.clear();
    }
}

/// Ending a transaction that was just begun, without an eviction, gives the
/// pending transactions back as they were.
pub proof fn lemma_end_undoes_begin(pending: Map<u16, Transaction>, id: u16, t: Transaction)
    requires
        !pending.contains_key(id),
    ensures
        pending.insert(id, t).remove(id) == pending,
        pending.insert(id, t).get(id) == Some(t),
{
    assert(pending.insert(id, t).remove(id) =~= pending);
}

impl Default for TransactionManager {
    fn default() -> (r: Self)
        ensures
            r.spec_next_id() == 1,
            r.pending_map() == Map::<u16, Transaction>::empty(),
            r.capacity() == 100,
    {
        Self::new()
    }
}

/// Remove the oldest half of the pending transactions (by request time;
/// among equal times, any).
fn evict_oldest_half(pending: &mut HashMap<u16, Transaction>)
    ensures
        evicted_oldest_half(old(pending)@, final(pending)@),
{
    let ghost orig = pending@;
    let ghost all = vstd::std_specs::hash::spec_keys_iter(&*pending).remaining();
    let mut keys: Vec<u16> = Vec::new();
    for k in it: pending.keys()
        invariant
            it.seq() == all,
            keys@ == all.take(it.index()).unref(),
    {
        keys.push(*k);
        assert(keys@ =~= all.take(it.index() + 1).unref());
    }
    proof {
        assert(keys@ =~= all.unref());
        assert(all.unref().to_set() == orig.dom());
        assert(keys@.no_duplicates());
    }
    let target = pending.len() / 2;
    let mut removed: usize = 0;
    while removed < target
        invariant
            target == orig.dom().len() / 2,
            removed <= target,
            orig.dom().finite(),
            keys@.no_duplicates(),
            forall|k: u16| pending@.contains_key(k) <==> keys@.contains(k),
            keys@.len() == orig.dom().len() - removed,
            pending@.dom().subset_of(orig.dom()),
            forall|k: u16| #[trigger] pending@.contains_key(k) ==> pending@[k] == orig[k],
            pending@.dom().len() == orig.dom().len() - removed,
            forall|gone: u16, kept: u16|
                orig.contains_key(gone) && !pending@.contains_key(gone)
                    && #[trigger] pending@.contains_key(kept) ==> #[trigger] orig[gone].request_time
                    <= orig[kept].request_time,
        decreases target - removed,
    {
        assert(keys@.contains(keys@[0]));
        let mut best: usize = 0;
        let mut best_time: u64 = request_time_of(pending, keys[0]);
        let mut i: usize = 1;
        while i < keys.len()
            invariant
                0 < keys@.len(),
                best < i <= keys@.len(),
                forall|k: u16| pending@.contains_key(k) <==> keys@.contains(k),
                forall|k: u16| #[trigger] pending@.contains_key(k) ==> pending@[k] == orig[k],
                best_time == orig[keys@[best as int]].request_time,
                forall|j: int| 0 <= j < i ==> best_time <= #[trigger] orig[keys@[j]].request_time,
            decreases keys@.len() - i,
        {
            assert(keys@.contains(keys@[i as int]));
            let t = request_time_of(pending, keys[i]);
            if t < best_time {
                best = i;
                best_time = t;
            }
            i = i + 1;
        }
        let key = keys[best];
        let ghost before = pending@;
        let ghost keys_before = keys@;
        assert(keys@.contains(key));
        pending.remove(&key);
        keys.remove(best);
        proof {
            assert(pending@ == before.remove(key));
            assert(keys@ == keys_before.remove(best as int));
            assert forall|k: u16| pending@.contains_key(k) <==> keys@.contains(k) by {
                if keys@.contains(k) {
                    let j = choose|j: int| 0 <= j < keys@.len() && keys@[j] == k;
                    if j < best {
                        assert(keys_before[j] == k);
                    } else {
                        assert(keys_before[j + 1] == k);
                    }
                    assert(k != key);
                    assert(keys_before.contains(k));
                    assert(before.contains_key(k));
                }
                if pending@.contains_key(k) {
                    assert(keys_before.contains(k));
                    let j = choose|j: int| 0 <= j < keys_before.len() && keys_before[j] == k;
                    assert(j != best);
                    if j < best {
                        assert(keys@[j] == k);
                    } else {
                        assert(keys@[j - 1] == k);
                    }
                }
            }
            assert forall|gone: u16, kept: u16|
                orig.contains_key(gone) && !pending@.contains_key(gone)
                    && #[trigger] pending@.contains_key(kept) implies #[trigger] orig[gone].request_time
                    <= orig[kept].request_time by {
                assert(before.contains_key(kept));
                if gone == key {
                    assert(keys_before.contains(kept));
                    let j = choose|j: int| 0 <= j < keys_before.len() && keys_before[j] == kept;
                    assert(best_time <= orig[keys_before[j]].request_time);
                }
            }
        }
        removed = removed + 1;
    }
}

/// The request time of the pending transaction `id`.
fn request_time_of(pending: &HashMap<u16, Transaction>, id: u16) -> (r: u64)
    requires
        pending@.contains_key(id),
    ensures
        r == pending@[id].request_time,
{
    match pending.get(&id) {
        Some(t) => t.request_time,
        None => 0,
    }
}

// ============================================================================
// Session
// ============================================================================

/// Modbus TCP session state: connection metadata, transaction bookkeeping,
/// the default unit id and the port.
#[derive(Debug)]
pub struct ModbusTcpSession {
    /// Connection information
    pub connection: Option<ConnectionInfo>,
    /// Transaction manager
    pub transactions: TransactionManager,
    /// Default unit ID
    pub default_unit_id: u8,
    /// TCP port (default 502)
    pub port: u16,
}

/// The session holds a connection whose state is `Connected`.
pub open spec fn session_connected(s: ModbusTcpSession) -> bool {
    s.connection matches Some(c) && c.state == ConnectionState::Connected
}

/// The MBAP length a request for `pdu` announces: unit id, function code
/// and data (the data length taken modulo 2^16).
pub open spec fn request_length(pdu: ModbusPdu) -> u16 {
    (pdu.data@.len() % 65536 + 2) as u16
}

impl ModbusTcpSession {
    /// A session with no connection, unit id 0xFF and port 502.
    pub fn new() -> (r: Self)
        ensures
            r.connection.is_none(),
            r.default_unit_id == 0xFF,
            r.port == DEFAULT_PORT,
            r.transactions.spec_next_id() == 1,
            r.transactions.pending_map() == Map::<u16, Transaction>::empty(),
    {
        Self::default()
    }

    /// A session with no connection and the given default unit id.
    pub fn with_unit_id(unit_id: u8) -> (r: Self)
        ensures
            r.connection.is_none(),
            r.default_unit_id == unit_id,
            r.port == DEFAULT_PORT,
            r.transactions.spec_next_id() == 1,
            r.transactions.pending_map() == Map::<u16, Transaction>::empty(),
    {
        Self { connection: None, transactions: TransactionManager::new(), default_unit_id: unit_id, port: DEFAULT_PORT }
    }

    /// Record a successful connection.
    pub fn set_connected(&mut self, remote: String, local: String)
        ensures
            final(self).connection matches Some(c) && c.remote_addr == remote && c.local_addr
                == local && c.state == ConnectionState::Connected && c.last_activity == 0
                && c.bytes_sent == 0 && c.bytes_received == 0,
            final(self).transactions == old(self).transactions,
            final(self).default_unit_id == old(self).default_unit_id,
            final(self).port == old(self).port,
    {
        self.connection = Some(ConnectionInfo::new(remote, local));
    }

    /// Mark the connection disconnected and drop all pending transactions.
    pub fn set_disconnected(&mut self)
        ensures
            match (old(self).connection, final(self).connection) {
                (None, None) => true,
                (Some(a), Some(b)) => b.state == ConnectionState::Disconnected && b.remote_addr
                    == a.remote_addr && b.local_addr == a.local_addr && b.last_activity
                    == a.last_activity && b.bytes_sent == a.bytes_sent && b.bytes_received
                    == a.bytes_received,
                _ => false,
            },
            final(self).transactions.pending_map() == Map::<u16, Transaction>::empty(),
            final(self).transactions.spec_next_id() == old(self).transactions.spec_next_id(),
            final(self).default_unit_id == old(self).default_unit_id,
            final(self).port == old(self).port,
    {
        if let Some(conn) = &mut self.connection {
            conn.state = ConnectionState::Disconnected;
        }
        self.transactions.clear();
    }

    /// Mark the connection as failed with the given message.
    pub fn set_error(&mut self, error: String)
        ensures
            match (old(self).connection, final(self).connection) {
                (None, None) => true,
                (Some(a), Some(b)) => b.state == ConnectionState::Error(error) && b.remote_addr
                    == a.remote_addr && b.local_addr == a.local_addr && b.last_activity
                    == a.last_activity && b.bytes_sent == a.bytes_sent && b.bytes_received
                    == a.bytes_received,
                _ => false,
            },
            final(self).transactions == old(self).transactions,
            final(self).default_unit_id == old(self).default_unit_id,
            final(self).port == old(self).port,
    {
        if let Some(conn) = &mut self.connection {
            conn.state = ConnectionState::Error(error);
        }
    }

    /// Whether the session holds a connection in the `Connected` state.
    pub fn is_connected(&self) -> (r: bool)
        ensures
            r == session_connected(*self),
    {
        match &self.connection {
            Some(c) => match &c.state {
                ConnectionState::Connected => true,
                _ => false,
            },
            None => false,
        }
    }

    /// Build a request frame for `pdu` with a fresh transaction id and the
    /// default unit id.
    pub fn build_request(&mut self, pdu: &ModbusPdu) -> (r: ModbusTcpFrame)
        requires
            pdu.data@.len() % 65536 + 2 <= 65535,
        ensures
            r.mbap == (MbapHeader {
                transaction_id: old(self).transactions.spec_next_id(),
                protocol_id: 0,
                length: request_length(*pdu),
                unit_id: old(self).default_unit_id,
            }),
            r.pdu.function_code == pdu.function_code,
            r.pdu.data@ == pdu.data@,
            final(self).transactions.spec_next_id() == (if r.mbap.transaction_id == 65535 {
                0
            } else {
                (r.mbap.transaction_id + 1) as u16
            }),
            final(self).transactions.pending_map() == old(self).transactions.pending_map(),
            final(self).connection == old(self).connection,
            final(self).default_unit_id == old(self).default_unit_id,
            final(self).port == old(self).port,
    {
        let transaction_id = self.transactions.next_transaction_id();
        let length = (pdu.data.len() % 65536) as u16 + 2;
        ModbusTcpFrame {
            mbap: MbapHeader { transaction_id, protocol_id: 0, length, unit_id: self.default_unit_id },
            pdu: pdu.clone(),
        }
    }

    /// Register a request as pending and return its transaction id.
    pub fn register_request(&mut self, pdu: &ModbusPdu) -> (r: u16)
        ensures
            r == old(self).transactions.spec_next_id(),
            final(self).transactions.pending_map().contains_key(r),
            final(self).transactions.pending_map()[r].pdu.function_code == pdu.function_code,
            final(self).transactions.pending_map()[r].pdu.data@ == pdu.data@,
            final(self).transactions.pending_map()[r].unit_id == old(self).default_unit_id,
            final(self).transactions.pending_map()[r].expected_len == 3,
            old(self).transactions.pending_map().dom().len() < old(self).transactions.capacity()
                ==> final(self).transactions.pending_map() == old(
                self,
            ).transactions.pending_map().insert(r, final(self).transactions.pending_map()[r]),
            final(self).connection == old(self).connection,
            final(self).default_unit_id == old(self).default_unit_id,
            final(self).port == old(self).port,
    {
        let expected_response_len: usize = 1 + 1 + 1;
        self.transactions.begin_transaction(pdu.clone(), self.default_unit_id, expected_response_len)
    }

    /// Parse a response frame. A transaction id that matches no pending
    /// request is accepted too; the caller decides what to do with it.
    pub fn parse_response(&self, data: &[u8]) -> (r: Result<ModbusTcpFrame, ModbusError>)
        requires
            tcp_parse_defined(data@),
        ensures
            data@.len() < 7 ==> r == Err::<ModbusTcpFrame, ModbusError>(
                ModbusError::IncompleteFrame { got: data@.len() as usize, expected: 7 },
            ),
            data@.len() >= 7 && be16_at(data@, 2) != 0 ==> (r matches Err(
                ModbusError::MbapParseError(m),
            ) && m@ == protocol_id_message(be16_at(data@, 2))),
            data@.len() >= 7 && be16_at(data@, 2) == 0 && data@.len() < 6 + be16_at(data@, 4) ==> r
                == Err::<ModbusTcpFrame, ModbusError>(
                ModbusError::IncompleteFrame {
                    got: data@.len() as usize,
                    expected: (6 + be16_at(data@, 4)) as usize,
                },
            ),
            tcp_accepts(data@) ==> (r matches Ok(f) && tcp_decodes(f, data@)),
    {
        ModbusTcpFrame::parse(data)
    }

    /// Complete a transaction after its response arrived.
    pub fn complete_transaction(&mut self, transaction_id: u16) -> (r: Option<Transaction>)
        ensures
            final(self).transactions.pending_map() == old(self).transactions.pending_map().remove(
                transaction_id,
            ),
            r == old(self).transactions.pending_map().get(transaction_id),
            final(self).connection == old(self).connection,
            final(self).default_unit_id == old(self).default_unit_id,
            final(self).port == old(self).port,
    {
        self.transactions.end_transaction(transaction_id)
    }
}

impl Default for ModbusTcpSession {
    fn default() -> (r: Self)
        ensures
            r.connection.is_none(),
            r.default_unit_id == 0xFF,
            r.port == DEFAULT_PORT,
            r.transactions.spec_next_id() == 1,
            r.transactions.pending_map() == Map::<u16, Transaction>::empty(),
    {
        Self { connection: None, transactions: TransactionManager::new(), default_unit_id: 0xFF, port: DEFAULT_PORT }
    }
}

// ============================================================================
// MBAP checks
// ============================================================================

/// The message for a header whose protocol id is not Modbus (0).
pub open spec fn protocol_id_modbus_message(protocol_id: u16) -> Seq<char> {
    "Invalid protocol_id: "@ + decimal(protocol_id as nat) + ", expected 0 for Modbus"@
}

/// The message for a header whose length is below 2.
pub open spec fn length_message(length: u16) -> Seq<char> {
    "Invalid length: "@ + decimal(length as nat) + ", minimum is 2"@
}

impl MbapHeader {
    /// Size of the MBAP header in bytes.
    pub const MBAP_SIZE: usize = 7;

    /// Check the header: protocol id 0 and a length covering at least the
    /// unit id and a function code.
    pub fn validate(&self) -> (r: Result<(), ModbusError>)
        ensures
            self.protocol_id != 0 ==> (r matches Err(ModbusError::MbapParseError(m)) && m@
                == protocol_id_modbus_message(self.protocol_id)),
            self.protocol_id == 0 && self.length < 2 ==> (r matches Err(
                ModbusError::MbapParseError(m),
            ) && m@ == length_message(self.length)),
            self.protocol_id == 0 && self.length >= 2 ==> r == Ok::<(), ModbusError>(()),
    {
        if self.protocol_id != 0 {
            let mut m = String::new();
            push_str(&mut m, "Invalid protocol_id: ");
            push_decimal(&mut m, self.protocol_id as u64);
            push_str(&mut m, ", expected 0 for Modbus");
            assert(m@ =~= protocol_id_modbus_message(self.protocol_id));
            return Err(ModbusError::MbapParseError(m));
        }
        if self.length < 2 {
            let mut m = String::new();
            push_str(&mut m, "Invalid length: ");
            push_decimal(&mut m, self.length as u64);
            push_str(&mut m, ", minimum is 2");
            assert(m@ =~= length_message(self.length));
            return Err(ModbusError::MbapParseError(m));
        }
        Ok(())
    }

    /// Whether a buffer of `buffer_size` bytes holds the whole frame this
    /// header announces (seven header bytes plus `length - 1`).
    pub fn is_complete(&self, buffer_size: usize) -> (r: bool)
        requires
            self.length >= 1,
        ensures
            r == (buffer_size >= 6 + self.length),
    {
        let required = 7 + (self.length - 1) as usize;
        buffer_size >= required
    }
}

} // verus!
