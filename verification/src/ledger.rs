//! The audit ledger: an append-only, hash-chained record of every
//! security-relevant action.
//!
//! Each entry carries `tip_hash`, the digest of the previous entry's tip
//! followed by the entry's own canonical serialization; `verify_chain`
//! recomputes every tip from sequence zero and reports the first entry whose
//! stored values do not reproduce it.

use vstd::prelude::*;
use vstd::string::StrSliceExecFns;
use vstd::string::StringSliceAdditionalSpecFns;

verus! {

/// The kind of action an audit entry records.
#[derive(Clone, Copy, PartialEq, Eq, Structural, Debug)]
pub enum AuditAction {
    AgentSpawn,
    AgentKill,
    ToolInvoke,
    CapabilityDenied,
    ConfigChange,
    TriggerFired,
    QuotaDenied,
}

/// One record of the audit chain. `agent` is the acting agent's id and
/// `detail` is free text that the caller has already sanitized.
#[derive(Debug)]
#[verifier::ext_equal]
pub struct AuditEntry {
    pub sequence: u64,
    pub timestamp: u64,
    pub action: AuditAction,
    pub agent: u64,
    pub detail: String,
    pub tip_hash: Vec<u8>,
}

/// The mathematical content of one audit entry.
#[verifier::ext_equal]
pub struct EntryModel {
    pub sequence: u64,
    pub timestamp: u64,
    pub action: AuditAction,
    pub agent: u64,
    pub detail: Seq<char>,
    pub tip_hash: Seq<u8>,
}

impl View for AuditEntry {
    type V = EntryModel;

    open spec fn view(&self) -> EntryModel {
        EntryModel {
            sequence: self.sequence,
            timestamp: self.timestamp,
            action: self.action,
            agent: self.agent,
            detail: self.detail@,
            tip_hash: self.tip_hash@,
        }
    }
}

/// The models of a sequence of entries.
pub open spec fn models(s: Seq<AuditEntry>) -> Seq<EntryModel> {
    Seq::new(s.len(), |i: int| s[i]@)
}

/// What `verify_chain` reports on a broken chain: the sequence number of the
/// first entry whose stored values do not reproduce the chain.
#[derive(Clone, Copy, PartialEq, Eq, Structural, Debug)]
pub struct ChainBroken {
    pub at_sequence: u64,
}

/// The digest the outside hash computes for the given bytes.
///
/// Named, never stated: no spec here says what the digest is on given bytes,
/// only that it is a function of them.
pub uninterp spec fn sha256_of(bytes: Seq<u8>) -> Seq<u8>;

/// Relies on sha2's `Sha256`: the digest is 32 bytes and depends on the
/// input bytes alone.
#[verifier::external_body]
fn sha256(bytes: &[u8]) -> (r: Vec<u8>)
    ensures
        r@ == sha256_of(bytes@),
        r@.len() == 32,
{
    let digest = <sha2::Sha256 as sha2::Digest>::digest(bytes);
    digest.to_vec()
}

/// The eight little-endian bytes of a 64-bit value.
pub open spec fn u64_le(x: u64) -> Seq<u8> {
    seq![
        (x & 0xff) as u8,
        ((x >> 8) & 0xff) as u8,
        ((x >> 16) & 0xff) as u8,
        ((x >> 24) & 0xff) as u8,
        ((x >> 32) & 0xff) as u8,
        ((x >> 40) & 0xff) as u8,
        ((x >> 48) & 0xff) as u8,
        ((x >> 56) & 0xff) as u8,
    ]
}

fn push_u64_le(out: &mut Vec<u8>, x: u64)
    ensures
        final(out)@ == old(out)@ + u64_le(x),
{
    out.push((x & 0xff) as u8);
    out.push(((x >> 8) & 0xff) as u8);
    out.push(((x >> 16) & 0xff) as u8);
    out.push(((x >> 24) & 0xff) as u8);
    out.push(((x >> 32) & 0xff) as u8);
    out.push(((x >> 40) & 0xff) as u8);
    out.push(((x >> 48) & 0xff) as u8);
    out.push(((x >> 56) & 0xff) as u8);
    assert(final(out)@ =~= old(out)@ + u64_le(x));
}

/// The byte tag of an action kind in the canonical serialization.
pub open spec fn action_tag(a: AuditAction) -> u8 {
    match a {
        AuditAction::AgentSpawn => 0,
        AuditAction::AgentKill => 1,
        AuditAction::ToolInvoke => 2,
        AuditAction::CapabilityDenied => 3,
        AuditAction::ConfigChange => 4,
        AuditAction::TriggerFired => 5,
        AuditAction::QuotaDenied => 6,
    }
}

fn action_tag_of(a: AuditAction) -> (t: u8)
    ensures
        t == action_tag(a),
{
    match a {
        AuditAction::AgentSpawn => 0,
        AuditAction::AgentKill => 1,
        AuditAction::ToolInvoke => 2,
        AuditAction::CapabilityDenied => 3,
        AuditAction::ConfigChange => 4,
        AuditAction::TriggerFired => 5,
        AuditAction::QuotaDenied => 6,
    }
}

/// The canonical serialization of an entry without its hash: sequence,
/// timestamp, action tag, agent, then the detail's UTF-8 bytes preceded by
/// their count, all integers little endian.
pub open spec fn payload_bytes(m: EntryModel) -> Seq<u8> {
    u64_le(m.sequence) + u64_le(m.timestamp) + seq![action_tag(m.action)] + u64_le(m.agent)
        + u64_le(vstd::utf8::encode_utf8(m.detail).len() as u64) + vstd::utf8::encode_utf8(m.detail)
}

/// The tip the chain expects entry `i` to be hashed against: the previous
/// entry's tip, or no bytes at all for the first entry.
pub open spec fn prev_tip(ms: Seq<EntryModel>, i: int) -> Seq<u8> {
    if i == 0 {
        Seq::empty()
    } else {
        ms[i - 1].tip_hash
    }
}

/// Entry `i` carries its position as its sequence number and a tip hash
/// recomputable from the previous tip and its own serialization.
pub open spec fn link_ok(ms: Seq<EntryModel>, i: int) -> bool {
    &&& ms[i].sequence == i
    &&& ms[i].tip_hash == sha256_of(prev_tip(ms, i) + payload_bytes(ms[i]))
}

/// Recomputing every tip hash from sequence zero reproduces every stored
/// tip hash; an empty chain holds trivially.
pub open spec fn chain_ok(ms: Seq<EntryModel>) -> bool {
    forall|i: int| 0 <= i < ms.len() ==> link_ok(ms, i)
}

/// The append-only, hash-chained audit record. The chain invariant is
/// established by `new` and preserved by `append`, the single point of
/// mutation.
#[derive(Debug)]
#[verifier::ext_equal]
pub struct AuditLedger {
    pub entries: Vec<AuditEntry>,
}

impl View for AuditLedger {
    type V = Seq<EntryModel>;

    open spec fn view(&self) -> Seq<EntryModel> {
        models(self.entries@)
    }
}

fn copy_bytes(v: &Vec<u8>) -> (r: Vec<u8>)
    ensures
        r@ == v@,
{
    let mut r: Vec<u8> = Vec::new();
    let mut i: usize = 0;
    while i < v.len()
        invariant
            i <= v@.len(),
            r@ == v@.take(i as int),
        decreases v@.len() - i,
    {
        r.push(v[i]);
        proof {
            assert(r@ =~= v@.take(i as int + 1));
        }
        i = i + 1;
    }
    proof {
        assert(v@.take(v@.len() as int) =~= v@);
    }
    r
}

fn append_bytes(out: &mut Vec<u8>, v: &Vec<u8>)
    ensures
        final(out)@ == old(out)@ + v@,
{
    let mut i: usize = 0;
    while i < v.len()
        invariant
            i <= v@.len(),
            out@ == old(out)@ + v@.take(i as int),
        decreases v@.len() - i,
    {
        out.push(v[i]);
        proof {
            assert(old(out)@ + v@.take(i as int + 1) =~= (old(out)@ + v@.take(i as int)).push(
                v@[i as int],
            ));
        }
        i = i + 1;
    }
    proof {
        assert(v@.take(v@.len() as int) =~= v@);
    }
}

/// A filter over the chain: entries may be restricted to one agent and to
/// one action kind; an empty filter passes everything.
#[derive(Clone, Copy, Debug)]
pub struct AuditQuery {
    pub agent: Option<u64>,
    pub action: Option<AuditAction>,
}

/// Whether an entry passes the filter.
pub open spec fn matches_query(m: EntryModel, q: AuditQuery) -> bool {
    &&& (q.agent matches Some(a) ==> m.agent == a)
    &&& (q.action matches Some(x) ==> m.action == x)
}

/// The entries passing the filter, in chain order.
pub open spec fn filtered(ms: Seq<EntryModel>, q: AuditQuery) -> Seq<EntryModel>
    decreases ms.len(),
{
    if ms.len() == 0 {
        Seq::empty()
    } else if matches_query(ms.last(), q) {
        filtered(ms.drop_last(), q).push(ms.last())
    } else {
        filtered(ms.drop_last(), q)
    }
}

/// Law: the chain invariant survives an append. A ledger reached from the
/// empty ledger by appends alone therefore satisfies `chain_ok` at every
/// step, and `verify_chain` accepts exactly such chains.
pub proof fn lemma_chain_push(ms: Seq<EntryModel>, m: EntryModel)
    requires
        chain_ok(ms),
        m.sequence == ms.len(),
        m.tip_hash == sha256_of(prev_tip(ms.push(m), ms.len() as int) + payload_bytes(m)),
    ensures
        chain_ok(ms.push(m)),
{
    let ext = ms.push(m);
    assert(link_ok(ext, ext.len() - 1));
    assert forall|i: int| 0 <= i < ext.len() implies link_ok(ext, i) by {
        if i < ext.len() - 1 {
            assert(link_ok(ms, i));
            assert(prev_tip(ext, i) == prev_tip(ms, i));
        }
    }
}

impl AuditLedger {
    /// An empty ledger; it verifies trivially.
    pub fn new() -> (r: AuditLedger)
        ensures
            r@ == Seq::<EntryModel>::empty(),
            chain_ok(r@),
    {
        let r = AuditLedger { entries: Vec::new() };
        proof {
            assert(r@ =~= Seq::<EntryModel>::empty());
        }
        r
    }

    /// How many entries the chain holds.
    pub fn len(&self) -> (n: usize)
        ensures
            n == self@.len(),
    {
        self.entries.len()
    }

    /// The single point of mutation: stores the next entry with the given
    /// content, its position as sequence number, and a tip hash computed
    /// from the previous tip and the entry's canonical serialization.
    pub fn append(&mut self, action: AuditAction, agent: u64, detail: String, timestamp: u64) -> (r:
        AuditEntry)
        requires
            chain_ok(old(self)@),
            old(self)@.len() < u64::MAX,
        ensures
            chain_ok(final(self)@),
            final(self)@ == old(self)@.push(r@),
            r@.sequence == old(self)@.len(),
            r@.timestamp == timestamp,
            r@.action == action,
            r@.agent == agent,
            r@.detail == detail@,
            r@.tip_hash == sha256_of(
                prev_tip(final(self)@, old(self)@.len() as int) + payload_bytes(r@),
            ),
    {
        let seqno: u64 = self.entries.len() as u64;
        let mut input: Vec<u8> = if self.entries.len() == 0 {
            Vec::new()
        } else {
            copy_bytes(&self.entries[self.entries.len() - 1].tip_hash)
        };
        let ghost prev: Seq<u8> = input@;
        push_u64_le(&mut input, seqno);
        push_u64_le(&mut input, timestamp);
        let tag = action_tag_of(action);
        input.push(tag);
        push_u64_le(&mut input, agent);
        let detail_bytes = detail.as_str().as_bytes_vec();
        push_u64_le(&mut input, detail_bytes.len() as u64);
        append_bytes(&mut input, &detail_bytes);
        let tip = sha256(input.as_slice());
        let entry = AuditEntry {
            sequence: seqno,
            timestamp,
            action,
            agent,
            detail,
            tip_hash: tip,
        };
        let ghost m = entry@;
        proof {
            assert(input@ =~= prev + payload_bytes(m));
        }
        let r = AuditEntry {
            sequence: entry.sequence,
            timestamp: entry.timestamp,
            action: entry.action,
            agent: entry.agent,
            detail: entry.detail.clone(),
            tip_hash: copy_bytes(&entry.tip_hash),
        };
        self.entries.push(entry);
        proof {
            let ms = self@;
            assert(ms =~= old(self)@.push(m));
            assert(prev_tip(ms, ms.len() - 1) == prev);
            lemma_chain_push(old(self)@, m);
        }
        r
    }

    /// The entries passing the filter, as copies, ordered by sequence
    /// ascending; finite and restartable.
    pub fn query(&self, q: &AuditQuery) -> (r: Vec<AuditEntry>)
        ensures
            models(r@) == filtered(self@, *q),
    {
        let mut r: Vec<AuditEntry> = Vec::new();
        let mut i: usize = 0;
        let n = self.entries.len();
        proof {
            assert(models(r@) =~= filtered(self@.take(0), *q));
        }
        while i < n
            invariant
                i <= n,
                n == self@.len(),
                models(r@) == filtered(self@.take(i as int), *q),
            decreases n - i,
        {
            proof {
                assert(self@.take(i as int + 1).drop_last() =~= self@.take(i as int));
                assert(self@.take(i as int + 1).last() == self@[i as int]);
            }
            let e = &self.entries[i];
            let agent_ok = match q.agent {
                Some(a) => e.agent == a,
                None => true,
            };
            let action_ok = match q.action {
                Some(x) => e.action == x,
                None => true,
            };
            if agent_ok && action_ok {
                let copy = AuditEntry {
                    sequence: e.sequence,
                    timestamp: e.timestamp,
                    action: e.action,
                    agent: e.agent,
                    detail: e.detail.clone(),
                    tip_hash: copy_bytes(&e.tip_hash),
                };
                proof {
                    assert(copy@ =~= self@[i as int]);
                }
                r.push(copy);
                proof {
                    assert(models(r@) =~= filtered(self@.take(i as int + 1), *q));
                }
            }
            i = i + 1;
        }
        proof {
            assert(self@.take(n as int) =~= self@);
        }
        r
    }

    /// Recomputes every tip hash from sequence zero against the stored
    /// entries: accepts exactly the chains satisfying `chain_ok`, and on a
    /// broken chain reports the first sequence number whose entry fails.
    pub fn verify_chain(&self) -> (r: Result<(), ChainBroken>)
        ensures
            r is Ok <==> chain_ok(self@),
            r matches Err(b) ==> {
                &&& 0 <= b.at_sequence < self@.len()
                &&& !link_ok(self@, b.at_sequence as int)
                &&& forall|j: int| 0 <= j < b.at_sequence ==> link_ok(self@, j)
            },
    {
        let n = self.entries.len();
        let mut i: usize = 0;
        let mut prev: Vec<u8> = Vec::new();
        while i < n
            invariant
                i <= n,
                n == self@.len(),
                forall|j: int| 0 <= j < i ==> link_ok(self@, j),
                prev@ == prev_tip(self@, i as int),
                i as int <= u64::MAX,
            decreases n - i,
        {
            let e = &self.entries[i];
            let mut input = prev;
            push_u64_le(&mut input, e.sequence);
            push_u64_le(&mut input, e.timestamp);
            let tag = action_tag_of(e.action);
            input.push(tag);
            push_u64_le(&mut input, e.agent);
            let detail_bytes = e.detail.as_str().as_bytes_vec();
            push_u64_le(&mut input, detail_bytes.len() as u64);
            append_bytes(&mut input, &detail_bytes);
            let expect = sha256(input.as_slice());
            let seq_ok = e.sequence == i as u64;
            let hash_ok = crate::strutil::bytes_eq(expect.as_slice(), e.tip_hash.as_slice());
            if !seq_ok || !hash_ok {
                proof {
                    if e.sequence == i as u64 {
                        assert(input@ =~= prev_tip(self@, i as int) + payload_bytes(self@[i as int]));
                    }
                    assert(!link_ok(self@, i as int));
                }
                return Err(ChainBroken { at_sequence: i as u64 });
            }
            proof {
                assert(input@ =~= prev_tip(self@, i as int) + payload_bytes(self@[i as int]));
                assert(link_ok(self@, i as int));
            }
            prev = copy_bytes(&e.tip_hash);
            i = i + 1;
        }
        Ok(())
    }
}

} // verus!
