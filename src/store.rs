//! The indexed transfer store: payloads appended in order by a producer, sealed
//! into one transport text, loaded on the other side and read back by position.
use vstd::prelude::*;
use vstd::string::StringSliceAdditionalSpecFns;

use crate::codec::{decode_entries, encode_entries, entries_decoding, entries_encoding};
use crate::transport::{
    decode_from_transport, encode_for_transport, transport_payload, transport_text, PipelineError,
};

verus! {

/// A request that the store cannot serve.
#[derive(Clone, Copy, Debug, PartialEq, Eq, Structural)]
pub enum StoreError {
    /// The entry at the cursor was stored under another kind than the one requested.
    TypeMismatch,
    /// The store has been sealed, or loaded from a sealed text: it takes no more appends.
    Sealed,
}

/// Where a store stands in its life.
#[derive(Clone, Copy, Debug, PartialEq, Eq, Structural)]
pub enum Phase {
    /// Created empty; a producer appends to it.
    Producing,
    /// Written out as a transport text; its entries are fixed.
    Sealed,
    /// Loaded from a transport text; a consumer reads it in order.
    Consuming,
}

/// What a store holds: its entries as `(kind, payload)` pairs, the position
/// of the next entry to read, and its phase.
pub struct StoreView {
    pub entries: Seq<(u64, Seq<u8>)>,
    pub cursor: nat,
    pub phase: Phase,
}

/// The entries of a store, its read cursor and its phase. The fields are
/// private: entries are only appended, and the cursor only moves forward.
pub struct PersistantStorage {
    data: Vec<(u64, Vec<u8>)>,
    idx: usize,
    phase: Phase,
}

impl View for PersistantStorage {
    type V = StoreView;

    closed spec fn view(&self) -> StoreView {
        StoreView { entries: self.data.deep_view(), cursor: self.idx as nat, phase: self.phase }
    }
}

/// The store of one process or session, through which producer and consumer
/// exchange values by position.
pub struct PersistentStorageContext {
    storage: PersistantStorage,
}

/// The same context under its older spelling.
pub type PersistantStorageContext = PersistentStorageContext;

impl View for PersistentStorageContext {
    type V = StoreView;

    closed spec fn view(&self) -> StoreView {
        self.storage@
    }
}

/// A store with no entries, its cursor at the start, open to a producer.
pub open spec fn empty_store() -> StoreView {
    StoreView { entries: Seq::empty(), cursor: 0, phase: Phase::Producing }
}

/// Whether `s` still takes appends.
pub open spec fn accepts_appends(s: StoreView) -> bool {
    s.phase == Phase::Producing
}

/// The store `s` after `payload` has been appended under `kind`.
pub open spec fn appended(s: StoreView, kind: u64, payload: Seq<u8>) -> StoreView {
    StoreView { entries: s.entries.push((kind, payload)), ..s }
}

/// What reading the next entry of `s` as `kind` gives: its payload, nothing
/// once every entry has been read or where `s` was not loaded from a text, or
/// a mismatch of kinds.
pub open spec fn read_outcome(s: StoreView, kind: u64) -> Result<Option<Seq<u8>>, StoreError> {
    if s.phase == Phase::Consuming && s.cursor < s.entries.len() {
        let e = s.entries[s.cursor as int];
        if e.0 == kind {
            Ok(Some(e.1))
        } else {
            Err(StoreError::TypeMismatch)
        }
    } else {
        Ok(None)
    }
}

/// The store `s` after one read: the cursor moves past the entry it stood
/// on, and stays where it is once no entry is left to read.
pub open spec fn after_read(s: StoreView) -> StoreView {
    if s.phase == Phase::Consuming && s.cursor < s.entries.len() {
        StoreView { cursor: s.cursor + 1, ..s }
    } else {
        s
    }
}

/// The store `s` after sealing: a producing store becomes sealed; any other
/// keeps its phase.
pub open spec fn after_seal(s: StoreView) -> StoreView {
    if s.phase == Phase::Producing {
        StoreView { phase: Phase::Sealed, ..s }
    } else {
        s
    }
}

/// The transport text that the entries `e` are sealed into.
pub open spec fn sealed_text(e: Seq<(u64, Seq<u8>)>) -> Seq<char> {
    transport_text(entries_encoding(e))
}

/// The entries that the transport text `t` loads as, or the stage that rejects it.
pub open spec fn loaded_entries(t: Seq<char>) -> Result<Seq<(u64, Seq<u8>)>, PipelineError> {
    match transport_payload(t) {
        Err(e) => Err(e),
        Ok(b) => match entries_decoding(b) {
            None => Err(PipelineError::StructuralDecode),
            Some(e) => Ok(e),
        },
    }
}

/// The markup element that carries the sealed text `t` in a rendered document.
pub open spec fn carrier_element(t: Seq<char>) -> Seq<char> {
    "<meta id=\"dioxus-storage\" data-serialized=\""@ + t + "\" hidden=\"true\"/>"@
}

impl PersistentStorageContext {
    /// An empty store, ready for a producer.
    pub fn new() -> (r: Self)
        ensures
            r@ == empty_store(),
    {
        let r = PersistentStorageContext {
            storage: PersistantStorage { data: Vec::new(), idx: 0, phase: Phase::Producing },
        };
        assert(r.storage.data.deep_view() =~= Seq::<(u64, Seq<u8>)>::empty());
        r
    }

    /// The phase the store is in.
    pub fn phase(&self) -> (r: Phase)
        ensures
            r == self@.phase,
    {
        self.storage.phase
    }

    /// How many entries the store holds.
    pub fn len(&self) -> (r: usize)
        ensures
            r == self@.entries.len(),
    {
        self.storage.data.len()
    }

    /// The position of the next entry to read.
    pub fn cursor(&self) -> (r: usize)
        ensures
            r == self@.cursor,
    {
        self.storage.idx
    }

    /// Appends `payload` under `kind` at the next free position, while the
    /// store is producing; a sealed or loaded store is left as it is.
    pub fn set(&mut self, kind: u64, payload: Vec<u8>) -> (r: Result<(), StoreError>)
        ensures
            r is Ok <==> accepts_appends(old(self)@),
            r matches Err(e) ==> e == StoreError::Sealed,
            final(self)@ == if accepts_appends(old(self)@) {
                appended(old(self)@, kind, payload@)
            } else {
                old(self)@
            },
    {
        if self.storage.phase != Phase::Producing {
            return Err(StoreError::Sealed);
        }
        let ghost before = self.storage.data.deep_view();
        assert(payload.deep_view() =~= payload@);
        self.storage.data.push((kind, payload));
        assert(self.storage.data.deep_view() =~= before.push((kind, payload@)));
        Ok(())
    }

    /// Reads the entry at the cursor as `kind` and moves past it: `Ok(None)`
    /// once every entry has been read or where the store was not loaded from
    /// a text, `TypeMismatch` where the entry was stored under another kind.
    pub fn get(&mut self, kind: u64) -> (r: Result<Option<Vec<u8>>, StoreError>)
        ensures
            final(self)@ == after_read(old(self)@),
            match r {
                Ok(Some(p)) => read_outcome(old(self)@, kind) == Ok::<Option<Seq<u8>>, StoreError>(Some(p@)),
                Ok(None) => read_outcome(old(self)@, kind) == Ok::<Option<Seq<u8>>, StoreError>(None),
                Err(e) => read_outcome(old(self)@, kind) == Err::<Option<Seq<u8>>, StoreError>(e),
            },
    {
        let idx = self.storage.idx;
        if self.storage.phase == Phase::Consuming && idx < self.storage.data.len() {
            self.storage.idx = idx + 1;
            let entry = &self.storage.data[idx];
            if entry.0 == kind {
                let p = entry.1.clone();
                assert(p@ =~= entry.1@);
                assert(entry.1.deep_view() =~= entry.1@);
                Ok(Some(p))
            } else {
                Err(StoreError::TypeMismatch)
            }
        } else {
            Ok(None)
        }
    }

    /// Seals the entries into one transport text, which loads back as them;
    /// a producing store takes no appends afterwards.
    pub fn seal(&mut self) -> (r: String)
        ensures
            r@ == sealed_text(old(self)@.entries),
            loaded_entries(r@) == Ok::<Seq<(u64, Seq<u8>)>, PipelineError>(old(self)@.entries),
            final(self)@ == after_seal(old(self)@),
    {
        let bytes = encode_entries(&self.storage.data);
        let text = encode_for_transport(bytes.as_slice());
        if self.storage.phase == Phase::Producing {
            self.storage.phase = Phase::Sealed;
        }
        text
    }

    /// Opens a sealed text as a store for a consumer, its cursor on the first entry.
    pub fn load(text: &str) -> (r: Result<Self, PipelineError>)
        ensures
            match r {
                Ok(c) => loaded_entries(text@) == Ok::<Seq<(u64, Seq<u8>)>, PipelineError>(c@.entries)
                    && c@.cursor == 0 && c@.phase == Phase::Consuming,
                Err(e) => loaded_entries(text@) == Err::<Seq<(u64, Seq<u8>)>, PipelineError>(e),
            },
    {
        match decode_from_transport(text) {
            Err(e) => Err(e),
            Ok(bytes) => match decode_entries(bytes.as_slice()) {
                Err(e) => Err(e),
                Ok(data) => Ok(
                    PersistentStorageContext {
                        storage: PersistantStorage { data, idx: 0, phase: Phase::Consuming },
                    },
                ),
            },
        }
    }
}

/// Seals the store and returns the markup element that carries it to the client.
pub fn get_data(ctx: &mut PersistentStorageContext) -> (r: String)
    ensures
        r@ == carrier_element(sealed_text(old(ctx)@.entries)),
        final(ctx)@ == after_seal(old(ctx)@),
{
    let t = ctx.seal();
    let mut r = String::from_str("<meta id=\"dioxus-storage\" data-serialized=\"");
    r.append(t.as_str());
    r.append("\" hidden=\"true\"/>");
    r
}

/// Once a store has been sealed it takes no more appends, and neither does a
/// store loaded from a transport text.
pub proof fn lemma_no_appends_after_seal(s: StoreView)
    ensures
        !accepts_appends(after_seal(s)),
        s.phase == Phase::Consuming ==> !accepts_appends(s),
{
}

/// Three payloads appended one after another to an empty store come back in
/// the order they were appended, each under its own kind, when a store loaded
/// with those entries is read from its first entry.
pub proof fn lemma_reads_follow_appends(
    k1: u64,
    p1: Seq<u8>,
    k2: u64,
    p2: Seq<u8>,
    k3: u64,
    p3: Seq<u8>,
)
    ensures
        ({
            let filled = appended(appended(appended(empty_store(), k1, p1), k2, p2), k3, p3);
            let s0 = StoreView { entries: filled.entries, cursor: 0, phase: Phase::Consuming };
            &&& read_outcome(s0, k1) == Ok::<Option<Seq<u8>>, StoreError>(Some(p1))
            &&& read_outcome(after_read(s0), k2) == Ok::<Option<Seq<u8>>, StoreError>(Some(p2))
            &&& read_outcome(after_read(after_read(s0)), k3) == Ok::<Option<Seq<u8>>, StoreError>(
                Some(p3),
            )
        }),
{
    let filled = appended(appended(appended(empty_store(), k1, p1), k2, p2), k3, p3);
    assert(filled.entries =~= seq![(k1, p1), (k2, p2), (k3, p3)]);
}

/// After three appends to an empty store and three reads of a store loaded
/// with those entries, whatever kinds were asked for, a fourth read finds nothing.
pub proof fn lemma_fourth_read_finds_nothing(
    k1: u64,
    p1: Seq<u8>,
    k2: u64,
    p2: Seq<u8>,
    k3: u64,
    p3: Seq<u8>,
    kind: u64,
)
    ensures
        ({
            let filled = appended(appended(appended(empty_store(), k1, p1), k2, p2), k3, p3);
            let s3 = after_read(
                after_read(
                    after_read(StoreView { entries: filled.entries, cursor: 0, phase: Phase::Consuming }),
                ),
            );
            read_outcome(s3, kind) == Ok::<Option<Seq<u8>>, StoreError>(None)
        }),
{
    let filled = appended(appended(appended(empty_store(), k1, p1), k2, p2), k3, p3);
    assert(filled.entries.len() == 3);
}

/// A payload appended under one kind and read back under another is refused
/// as a mismatch, never handed out.
pub proof fn lemma_kind_mismatch_refused(kind: u64, payload: Seq<u8>, asked: u64)
    requires
        kind != asked,
    ensures
        read_outcome(
            StoreView {
                entries: appended(empty_store(), kind, payload).entries,
                cursor: 0,
                phase: Phase::Consuming,
            },
            asked,
        ) == Err::<Option<Seq<u8>>, StoreError>(StoreError::TypeMismatch),
{
}

/// The 64-bit FNV-1a hash of `b`.
pub open spec fn fnv1a(b: Seq<u8>) -> u64
    decreases b.len(),
{
    if b.len() == 0 {
        0xcbf29ce484222325
    } else {
        (fnv1a(b.drop_last()) ^ (b.last() as u64)).wrapping_mul(0x100000001b3)
    }
}

/// The kind under which values of the type named `name` are stored: the
/// FNV-1a hash of the name's UTF-8 bytes.
pub fn type_fingerprint(name: &str) -> (r: u64)
    ensures
        r == fnv1a(name.spec_bytes()),
{
    let bytes = name.as_bytes();
    let mut h: u64 = 0xcbf29ce484222325;
    let mut i: usize = 0;
    while i < bytes.len()
        invariant
            i <= bytes@.len(),
            h == fnv1a(bytes@.subrange(0, i as int)),
        decreases bytes@.len() - i,
    {
        proof {
            assert(bytes@.subrange(0, i + 1).drop_last() =~= bytes@.subrange(0, i as int));
        }
        h = (h ^ (bytes[i] as u64)).wrapping_mul(0x100000001b3);
        i += 1;
    }
    assert(bytes@.subrange(0, bytes@.len() as int) =~= bytes@);
    h
}

} // verus!
