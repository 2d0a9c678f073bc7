//! The State Draft/Commit Protocol: a keyed store of Atom Records with staged
//! writes and atomic commit, plus a retrieval view for restore.
//!
//! A save pass opens one draft per key and populates each like any other Atom
//! Record. `commit_all` then makes every draft of the pass visible in the
//! store as a single unit: if any draft was left incomplete, the whole commit
//! fails and the store is left exactly as it was.

use crate::atom::{
    lemma_record_round_trip, parse_record, spec_elems_bytes, spec_float_payload,
    spec_float_record, spec_int_payload, spec_int_record, spec_parse_record, spec_record,
    SpaceHead, UnidentifiedAtom, HEADER_LEN, VECTOR_CHILD_SIZE,
};
use crate::table::spec_assoc_map;
use crate::urid::Urid;
use vstd::prelude::*;
use vstd::slice::*;

verus! {

/// Error from the persistence protocol.
#[derive(Clone, Copy, PartialEq, Eq, Structural, Debug)]
pub enum StateErr {
    /// A draft of the current save pass was left unfinished at commit time.
    Unfinished,
}

/// The committed store: a mapping from key URID to committed Atom Record
/// bytes. Its storage medium is host-owned; this type models the protocol's
/// view of it.
pub struct Storage {
    entries: Vec<(u32, Vec<u8>)>,
}

impl Storage {
    /// The store's entries, as key and record bytes, in insertion order.
    pub closed spec fn spec_entries(&self) -> Seq<(u32, Seq<u8>)> {
        self.entries@.map_values(|e: (u32, Vec<u8>)| (e.0, e.1@))
    }

    /// The mapping the store holds, a later write to a key overriding an
    /// earlier one.
    pub open spec fn as_map(&self) -> Map<u32, Seq<u8>> {
        spec_assoc_map(self.spec_entries())
    }

    /// An empty store.
    pub fn new() -> (r: Storage)
        ensures
            r.as_map() == Map::<u32, Seq<u8>>::empty(),
    {
        let r = Storage { entries: Vec::new() };
        proof {
            assert(r.spec_entries() =~= Seq::<(u32, Seq<u8>)>::empty());
        }
        r
    }

    /// Accepts one committed record for a key, overriding any earlier record
    /// under the same key.
    fn insert_record(&mut self, key: u32, bytes: Vec<u8>)
        ensures
            final(self).as_map() == old(self).as_map().insert(key, bytes@),
    {
        self.entries.push((key, bytes));
        proof {
            assert(self.spec_entries().drop_last() =~= old(self).spec_entries());
            assert(self.spec_entries().last() == (key, bytes@));
        }
    }

    /// Returns a read-only view of the committed record for `key`, or `None`
    /// if absent. The store itself is not mutated: it may be restored from
    /// repeatedly and independently of saves.
    pub fn retrieve(&self, key: Urid) -> (r: Option<UnidentifiedAtom>)
        ensures
            match r {
                Some(a) => self.as_map().contains_key(key.spec_get()) && a.bytes()
                    == self.as_map()[key.spec_get()],
                None => !self.as_map().contains_key(key.spec_get()),
            },
    {
        let k = key.get();
        let n = self.entries.len();
        let mut found: Option<usize> = None;
        let mut i: usize = 0;
        proof {
            assert(self.spec_entries().take(0) =~= Seq::<(u32, Seq<u8>)>::empty());
        }
        while i < n
            invariant
                i <= n,
                n == self.entries@.len(),
                match found {
                    Some(j) => {
                        &&& j < i
                        &&& self.spec_entries()[j as int].0 == k
                        &&& spec_assoc_map(self.spec_entries().take(i as int)).contains_key(k)
                        &&& spec_assoc_map(self.spec_entries().take(i as int))[k]
                            == self.spec_entries()[j as int].1
                    },
                    None => !spec_assoc_map(self.spec_entries().take(i as int)).contains_key(k),
                },
            decreases n - i,
        {
            proof {
                assert(self.spec_entries().take(i + 1).drop_last() =~= self.spec_entries().take(
                    i as int,
                ));
                assert(self.spec_entries().take(i + 1).last() == self.spec_entries()[i as int]);
            }
            if self.entries[i].0 == k {
                found = Some(i);
            }
            i = i + 1;
        }
        proof {
            assert(self.spec_entries().take(n as int) =~= self.spec_entries());
        }
        match found {
            Some(j) => {
                let bytes = slice_to_vec(self.entries[j].1.as_slice());
                Some(UnidentifiedAtom::new(bytes))
            },
            None => None,
        }
    }

    /// A retrieval view over this store, for a restore pass.
    pub fn retrieve_handle(&self) -> (r: RetrieveHandle<'_>)
        ensures
            r.as_map() == self.as_map(),
    {
        RetrieveHandle { storage: self }
    }
}

/// A read-only view of a committed store, handed to a plugin during restore.
pub struct RetrieveHandle<'a> {
    storage: &'a Storage,
}

impl<'a> RetrieveHandle<'a> {
    /// The mapping the underlying store holds.
    pub closed spec fn as_map(&self) -> Map<u32, Seq<u8>> {
        self.storage.as_map()
    }

    /// Returns a read-only view of the committed record for `key`, or `None`
    /// if absent.
    pub fn retrieve(&self, key: Urid) -> (r: Option<UnidentifiedAtom>)
        ensures
            match r {
                Some(a) => self.as_map().contains_key(key.spec_get()) && a.bytes()
                    == self.as_map()[key.spec_get()],
                None => !self.as_map().contains_key(key.spec_get()),
            },
    {
        self.storage.retrieve(key)
    }
}

/// One pending Atom Record, associated with a key URID and not yet visible to
/// the store.
pub struct Draft {
    key: u32,
    head: SpaceHead,
}

impl Draft {
    /// The key this draft will be committed under.
    pub closed spec fn spec_key(&self) -> u32 {
        self.key
    }

    /// The bytes written into this draft so far.
    pub closed spec fn spec_bytes(&self) -> Seq<u8> {
        self.head.bytes()
    }

    /// True while a record is still under construction in this draft.
    pub closed spec fn is_open(&self) -> bool {
        self.head.is_active()
    }

    /// The offset and type tag of the record under construction, if one is
    /// open. A draft's record always begins at offset zero.
    pub closed spec fn open_header(&self) -> Option<(int, u32)> {
        self.head.active_header()
    }

    pub closed spec fn wf(&self) -> bool {
        &&& self.head.wf()
        &&& match self.head.active_header() {
            Some((h, ty)) => h == 0,
            None => true,
        }
    }

    /// A draft is complete when nothing is still under construction in it and
    /// its buffer holds exactly one well-formed Atom Record.
    pub open spec fn is_complete(&self) -> bool {
        &&& !self.is_open()
        &&& spec_parse_record(self.spec_bytes()) is Some
    }

    /// Whether this draft is complete: its header was finalized and its bytes
    /// parse back as one record.
    fn check_complete(&self) -> (r: bool)
        ensures
            r == self.is_complete(),
    {
        if self.head.is_open() {
            return false;
        }
        match parse_record(self.head.data().as_slice()) {
            Some(_) => true,
            None => false,
        }
    }
}

/// The map a committed save pass produces: every draft's record becomes
/// visible under its key, a later draft overriding an earlier one with the
/// same key.
pub open spec fn spec_commit_map(m: Map<u32, Seq<u8>>, drafts: Seq<Draft>) -> Map<u32, Seq<u8>>
    decreases drafts.len(),
{
    if drafts.len() == 0 {
        m
    } else {
        spec_commit_map(m, drafts.drop_last()).insert(
            drafts.last().spec_key(),
            drafts.last().spec_bytes(),
        )
    }
}

/// A handle over one save pass: the set of drafts opened so far.
pub struct StoreHandle {
    drafts: Vec<Draft>,
}

impl StoreHandle {
    /// The drafts opened during this save pass, in order.
    pub closed spec fn spec_drafts(&self) -> Seq<Draft> {
        self.drafts@
    }

    pub open spec fn wf(&self) -> bool {
        forall|i: int|
            0 <= i < self.spec_drafts().len() ==> (#[trigger] self.spec_drafts()[i]).wf()
    }

    /// True when every draft of this pass is complete.
    pub open spec fn all_complete(&self) -> bool {
        forall|i: int|
            0 <= i < self.spec_drafts().len() ==> (#[trigger] self.spec_drafts()[i]).is_complete()
    }

    /// True when the most recent draft is still untouched: ready for one
    /// record to be written into it.
    pub open spec fn has_fresh_draft(&self) -> bool {
        &&& self.spec_drafts().len() > 0
        &&& !self.spec_drafts().last().is_open()
        &&& self.spec_drafts().last().spec_bytes().len() == 0
    }

    /// True while the most recent draft has a record under construction.
    pub open spec fn has_open_draft(&self) -> bool {
        &&& self.spec_drafts().len() > 0
        &&& self.spec_drafts().last().is_open()
    }

    /// A handle with no drafts: the start of a save pass.
    pub fn new() -> (r: StoreHandle)
        ensures
            r.wf(),
            r.spec_drafts().len() == 0,
    {
        StoreHandle { drafts: Vec::new() }
    }

    /// Begins a pending write for `key`. The draft is populated through the
    /// `draft_*` methods and becomes visible in a store only at `commit_all`.
    pub fn draft(&mut self, key: Urid)
        requires
            old(self).wf(),
        ensures
            final(self).wf(),
            final(self).spec_drafts().len() == old(self).spec_drafts().len() + 1,
            final(self).spec_drafts().drop_last() == old(self).spec_drafts(),
            final(self).spec_drafts().last().spec_key() == key.spec_get(),
            final(self).spec_drafts().last().spec_bytes() == Seq::<u8>::empty(),
            !final(self).spec_drafts().last().is_open(),
            final(self).has_fresh_draft(),
    {
        self.drafts.push(Draft { key: key.get(), head: SpaceHead::new() });
        proof {
            assert(self.spec_drafts().drop_last() =~= old(self).spec_drafts());
        }
    }

    /// Writes one complete integer Atom Record into the freshest draft.
    pub fn draft_write_int(&mut self, ty: Urid, value: i32)
        requires
            old(self).wf(),
            old(self).has_fresh_draft(),
        ensures
            final(self).wf(),
            final(self).spec_drafts().len() == old(self).spec_drafts().len(),
            final(self).spec_drafts().drop_last() == old(self).spec_drafts().drop_last(),
            final(self).spec_drafts().last().spec_key() == old(
                self,
            ).spec_drafts().last().spec_key(),
            final(self).spec_drafts().last().spec_bytes() == spec_int_record(
                ty.spec_get(),
                value,
            ),
            final(self).spec_drafts().last().is_complete(),
    {
        let mut d = match self.drafts.pop() {
            Some(d) => d,
            None => unreached(),
        };
        d.head.write_int_record(ty.get(), value);
        self.drafts.push(d);
        proof {
            assert(self.spec_drafts().drop_last() =~= old(self).spec_drafts().drop_last());
            assert(self.spec_drafts().last().spec_bytes() =~= spec_int_record(
                ty.spec_get(),
                value,
            ));
            vstd::bytes::lemma_auto_spec_u32_to_from_le_bytes();
            lemma_record_round_trip(ty.spec_get(), spec_int_payload(value));
        }
    }

    /// Writes one complete float Atom Record, carrying the given bit pattern,
    /// into the freshest draft.
    pub fn draft_write_float(&mut self, ty: Urid, bits: u32)
        requires
            old(self).wf(),
            old(self).has_fresh_draft(),
        ensures
            final(self).wf(),
            final(self).spec_drafts().len() == old(self).spec_drafts().len(),
            final(self).spec_drafts().drop_last() == old(self).spec_drafts().drop_last(),
            final(self).spec_drafts().last().spec_key() == old(
                self,
            ).spec_drafts().last().spec_key(),
            final(self).spec_drafts().last().spec_bytes() == spec_float_record(
                ty.spec_get(),
                bits,
            ),
            final(self).spec_drafts().last().is_complete(),
    {
        let mut d = match self.drafts.pop() {
            Some(d) => d,
            None => unreached(),
        };
        d.head.write_float_record(ty.get(), bits);
        self.drafts.push(d);
        proof {
            assert(self.spec_drafts().drop_last() =~= old(self).spec_drafts().drop_last());
            assert(self.spec_drafts().last().spec_bytes() =~= spec_float_record(
                ty.spec_get(),
                bits,
            ));
            vstd::bytes::lemma_auto_spec_u32_to_from_le_bytes();
            lemma_record_round_trip(ty.spec_get(), spec_float_payload(bits));
        }
    }

    /// Reserves a vector Atom Record in the freshest draft; elements are then
    /// appended with `draft_append_elems` and the record is completed with
    /// `draft_end`. Leaving it unfinished makes the whole commit fail.
    pub fn draft_begin_vector(&mut self, ty: Urid, child_ty: Urid)
        requires
            old(self).wf(),
            old(self).has_fresh_draft(),
        ensures
            final(self).wf(),
            final(self).spec_drafts().len() == old(self).spec_drafts().len(),
            final(self).spec_drafts().drop_last() == old(self).spec_drafts().drop_last(),
            final(self).spec_drafts().last().spec_key() == old(
                self,
            ).spec_drafts().last().spec_key(),
            final(self).has_open_draft(),
            final(self).open_ty() == ty.spec_get(),
            final(self).spec_drafts().last().spec_bytes() == vstd::bytes::spec_u32_to_le_bytes(
                ty.spec_get(),
            ) + vstd::bytes::spec_u32_to_le_bytes(0) + vstd::bytes::spec_u32_to_le_bytes(
                VECTOR_CHILD_SIZE,
            ) + vstd::bytes::spec_u32_to_le_bytes(child_ty.spec_get()),
    {
        let mut d = match self.drafts.pop() {
            Some(d) => d,
            None => unreached(),
        };
        d.head.begin_vector_record(ty.get(), child_ty.get());
        self.drafts.push(d);
        proof {
            assert(self.spec_drafts().drop_last() =~= old(self).spec_drafts().drop_last());
        }
    }

    /// The type tag of the record under construction in the freshest draft.
    pub open spec fn open_ty(&self) -> u32
        recommends
            self.has_open_draft(),
    {
        self.spec_drafts().last().open_header()->Some_0.1
    }

    /// Appends a run of four-byte elements to the open record of the freshest
    /// draft.
    pub fn draft_append_elems(&mut self, elems: &[u32])
        requires
            old(self).wf(),
            old(self).has_open_draft(),
        ensures
            final(self).wf(),
            final(self).spec_drafts().len() == old(self).spec_drafts().len(),
            final(self).spec_drafts().drop_last() == old(self).spec_drafts().drop_last(),
            final(self).spec_drafts().last().spec_key() == old(
                self,
            ).spec_drafts().last().spec_key(),
            final(self).has_open_draft(),
            final(self).open_ty() == old(self).open_ty(),
            final(self).spec_drafts().last().spec_bytes() == old(
                self,
            ).spec_drafts().last().spec_bytes() + spec_elems_bytes(elems@),
    {
        let mut d = match self.drafts.pop() {
            Some(d) => d,
            None => unreached(),
        };
        d.head.append_vector_elems(elems);
        self.drafts.push(d);
        proof {
            assert(self.spec_drafts().drop_last() =~= old(self).spec_drafts().drop_last());
        }
    }

    /// Finalizes the open record of the freshest draft by back-patching its
    /// reserved size field, completing the draft.
    pub fn draft_end(&mut self)
        requires
            old(self).wf(),
            old(self).has_open_draft(),
            old(self).spec_drafts().last().spec_bytes().len() - HEADER_LEN <= u32::MAX,
        ensures
            final(self).wf(),
            final(self).spec_drafts().len() == old(self).spec_drafts().len(),
            final(self).spec_drafts().drop_last() == old(self).spec_drafts().drop_last(),
            final(self).spec_drafts().last().spec_key() == old(
                self,
            ).spec_drafts().last().spec_key(),
            final(self).spec_drafts().last().spec_bytes() == spec_record(
                old(self).open_ty(),
                old(self).spec_drafts().last().spec_bytes().skip(HEADER_LEN as int),
            ),
            final(self).spec_drafts().last().is_complete(),
    {
        proof {
            assert(old(self).spec_drafts()[old(self).spec_drafts().len() - 1].wf());
            old(self).spec_drafts().last().head.lemma_active_in_bounds();
        }
        let mut d = match self.drafts.pop() {
            Some(d) => d,
            None => unreached(),
        };
        d.head.end_record();
        self.drafts.push(d);
        proof {
            assert(self.spec_drafts().drop_last() =~= old(self).spec_drafts().drop_last());
            let old_bytes = old(self).spec_drafts().last().spec_bytes();
            assert(old_bytes.take(0) =~= Seq::<u8>::empty());
            assert(self.spec_drafts().last().spec_bytes() =~= spec_record(
                old(self).open_ty(),
                old_bytes.skip(HEADER_LEN as int),
            ));
            lemma_record_round_trip(
                old(self).open_ty(),
                old_bytes.skip(HEADER_LEN as int),
            );
        }
    }

    /// Makes every draft opened during this save pass visible in the store as
    /// a single unit. If any draft was left incomplete, the whole commit fails
    /// and no draft from this pass becomes visible: the store is returned
    /// exactly as it was.
    pub fn commit_all(self, storage: &mut Storage) -> (r: Result<(), StateErr>)
        requires
            self.wf(),
        ensures
            r is Ok <==> self.all_complete(),
            r is Ok ==> final(storage).as_map() == spec_commit_map(
                old(storage).as_map(),
                self.spec_drafts(),
            ),
            r is Err ==> final(storage).as_map() == old(storage).as_map(),
            r is Err ==> r->Err_0 == StateErr::Unfinished,
    {
        let n = self.drafts.len();
        let mut i: usize = 0;
        while i < n
            invariant
                i <= n,
                n == self.spec_drafts().len(),
                self.wf(),
                forall|j: int| 0 <= j < i ==> (#[trigger] self.spec_drafts()[j]).is_complete(),
            decreases n - i,
        {
            if !self.drafts[i].check_complete() {
                return Err(StateErr::Unfinished);
            }
            i = i + 1;
        }
        let mut i: usize = 0;
        proof {
            assert(self.spec_drafts().take(0) =~= Seq::<Draft>::empty());
        }
        while i < n
            invariant
                i <= n,
                n == self.spec_drafts().len(),
                storage.as_map() == spec_commit_map(
                    old(storage).as_map(),
                    self.spec_drafts().take(i as int),
                ),
            decreases n - i,
        {
            proof {
                assert(self.spec_drafts().take(i + 1).drop_last() =~= self.spec_drafts().take(
                    i as int,
                ));
                assert(self.spec_drafts().take(i + 1).last() == self.spec_drafts()[i as int]);
            }
            let bytes = slice_to_vec(self.drafts[i].head.data().as_slice());
            storage.insert_record(self.drafts[i].key, bytes);
            i = i + 1;
        }
        proof {
            assert(self.spec_drafts().take(n as int) =~= self.spec_drafts());
        }
        Ok(())
    }
}

/// Round-trip save/restore of a float value: committing a pass whose last
/// draft for a key holds a float record, then retrieving that key and reading
/// it under the same type, reproduces the exact bit pattern.
pub proof fn lemma_save_restore_float(
    m: Map<u32, Seq<u8>>,
    drafts: Seq<Draft>,
    i: int,
    ty: u32,
    bits: u32,
)
    requires
        0 <= i < drafts.len(),
        forall|j: int| i < j < drafts.len() ==> (#[trigger] drafts[j]).spec_key() != drafts[
            i].spec_key(),
        drafts[i].spec_bytes() == spec_float_record(ty, bits),
    ensures
        spec_commit_map(m, drafts).contains_key(drafts[i].spec_key()),
        crate::atom::spec_read_float_bits(
            spec_commit_map(m, drafts)[drafts[i].spec_key()],
            ty,
        ) == Some(bits),
{
    lemma_commit_sees_draft(m, drafts, i);
    crate::atom::lemma_float_round_trip(ty, bits);
}

/// Round-trip save/restore of a vector value: committing a pass whose last
/// draft for a key holds a vector record, then retrieving that key and
/// reading it under the same type and element type, reproduces every element.
pub proof fn lemma_save_restore_vector(
    m: Map<u32, Seq<u8>>,
    drafts: Seq<Draft>,
    i: int,
    ty: u32,
    child_ty: u32,
    elems: Seq<u32>,
)
    requires
        0 <= i < drafts.len(),
        forall|j: int| i < j < drafts.len() ==> (#[trigger] drafts[j]).spec_key() != drafts[
            i].spec_key(),
        drafts[i].spec_bytes() == crate::atom::spec_vector_record(ty, child_ty, elems),
        crate::atom::VECTOR_BODY_LEN + 4 * elems.len() <= u32::MAX,
    ensures
        spec_commit_map(m, drafts).contains_key(drafts[i].spec_key()),
        crate::atom::spec_read_vector(
            spec_commit_map(m, drafts)[drafts[i].spec_key()],
            ty,
            child_ty,
        ) == Some(elems),
{
    lemma_commit_sees_draft(m, drafts, i);
    crate::atom::lemma_vector_round_trip(ty, child_ty, elems);
}

/// Atomic visibility of a save pass, seen from retrieval: a key that no draft
/// of the pass touched reads exactly as it did before the commit.
pub proof fn lemma_commit_keeps_undrafted(m: Map<u32, Seq<u8>>, drafts: Seq<Draft>, k: u32)
    requires
        forall|i: int| 0 <= i < drafts.len() ==> (#[trigger] drafts[i]).spec_key() != k,
    ensures
        spec_commit_map(m, drafts).contains_key(k) == m.contains_key(k),
        m.contains_key(k) ==> spec_commit_map(m, drafts)[k] == m[k],
    decreases drafts.len(),
{
    if drafts.len() > 0 {
        assert(forall|i: int|
            0 <= i < drafts.drop_last().len() ==> (#[trigger] drafts.drop_last()[i]).spec_key()
                != k);
        lemma_commit_keeps_undrafted(m, drafts.drop_last(), k);
    }
}

/// Round-trip visibility of a save pass, seen from retrieval: after a commit,
/// a drafted key reads back exactly the record bytes of the last draft that
/// was opened for it.
pub proof fn lemma_commit_sees_draft(m: Map<u32, Seq<u8>>, drafts: Seq<Draft>, i: int)
    requires
        0 <= i < drafts.len(),
        forall|j: int|
            i < j < drafts.len() ==> (#[trigger] drafts[j]).spec_key() != drafts[i].spec_key(),
    ensures
        spec_commit_map(m, drafts).contains_key(drafts[i].spec_key()),
        spec_commit_map(m, drafts)[drafts[i].spec_key()] == drafts[i].spec_bytes(),
    decreases drafts.len(),
{
    if i < drafts.len() - 1 {
        assert(forall|j: int|
            i < j < drafts.drop_last().len() ==> (#[trigger] drafts.drop_last()[j]).spec_key()
                != drafts.drop_last()[i].spec_key());
        lemma_commit_sees_draft(m, drafts.drop_last(), i);
    }
}

} // verus!
