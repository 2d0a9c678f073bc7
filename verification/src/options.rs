//! The Option Marshaling Protocol: bridging a host-supplied array of option
//! entries to a plugin's typed get and set calls, accumulating per-entry error
//! flags.
//!
//! Each entry's outcome is independent: a failure on one entry sets its error
//! flag in the running result but does not stop processing of the others. The
//! overall call returns the bitwise OR of all per-entry flags; zero means full
//! success.

use crate::atom::{
    encode_record, spec_record, spec_split_record, split_record, SpaceHead, UnidentifiedAtom,
};
use crate::table::spec_assoc_map;
use crate::urid::Urid;
use vstd::prelude::*;
use vstd::slice::*;

verus! {

/// Error flag: an uncategorized failure from plugin logic.
pub const OPTIONS_ERR_UNKNOWN: u32 = 1;

/// Error flag: an unparseable or invalid subject.
pub const OPTIONS_ERR_BAD_SUBJECT: u32 = 2;

/// Error flag: an unrecognized option key.
pub const OPTIONS_ERR_BAD_KEY: u32 = 4;

/// Error flag: a type mismatch or a malformed payload.
pub const OPTIONS_ERR_BAD_VALUE: u32 = 8;

/// An independently-OR-able set of option error flags, so a host can test for
/// a specific failure class bitwise even when several entries failed for
/// different reasons.
#[derive(Clone, Copy, PartialEq, Eq, Structural, Debug)]
pub struct OptionsErr {
    pub bits: u32,
}

impl OptionsErr {
    /// An uncategorized failure from plugin logic.
    pub fn unknown() -> (r: OptionsErr)
        ensures
            r.bits == OPTIONS_ERR_UNKNOWN,
    {
        OptionsErr { bits: OPTIONS_ERR_UNKNOWN }
    }

    /// An unparseable or invalid subject.
    pub fn bad_subject() -> (r: OptionsErr)
        ensures
            r.bits == OPTIONS_ERR_BAD_SUBJECT,
    {
        OptionsErr { bits: OPTIONS_ERR_BAD_SUBJECT }
    }

    /// An unrecognized option key.
    pub fn bad_key() -> (r: OptionsErr)
        ensures
            r.bits == OPTIONS_ERR_BAD_KEY,
    {
        OptionsErr { bits: OPTIONS_ERR_BAD_KEY }
    }

    /// A type mismatch or a malformed payload.
    pub fn bad_value() -> (r: OptionsErr)
        ensures
            r.bits == OPTIONS_ERR_BAD_VALUE,
    {
        OptionsErr { bits: OPTIONS_ERR_BAD_VALUE }
    }
}

/// Context kind: the option applies to the plugin instance itself.
pub const CONTEXT_INSTANCE: u32 = 0;

/// Context kind: the option applies to some named resource.
pub const CONTEXT_RESOURCE: u32 = 1;

/// Context kind: the option applies to some blank node.
pub const CONTEXT_BLANK: u32 = 2;

/// Context kind: the option applies to some port.
pub const CONTEXT_PORT: u32 = 3;

/// The scope an option or state value applies to.
#[derive(Clone, Copy, PartialEq, Eq, Structural, Debug)]
pub enum Subject {
    Instance,
    Resource(Urid),
    Blank(u32),
    Port(u32),
}

/// True when a context/subject pair names one of the four recognized subject
/// kinds: a resource subject must be a valid (nonzero) URID.
pub open spec fn spec_valid_subject(context: u32, subject: u32) -> bool {
    ||| context == CONTEXT_INSTANCE
    ||| (context == CONTEXT_RESOURCE && subject != 0)
    ||| context == CONTEXT_BLANK
    ||| context == CONTEXT_PORT
}

/// Extracts the subject of an option entry. Each of the four recognized
/// context kinds maps to exactly one `Subject` variant; an out-of-range
/// context, or a resource context whose subject is not a valid URID, yields
/// a bad-subject error and no subject at all.
pub fn try_extract_subject(context: u32, subject: u32) -> (r: Result<Subject, OptionsErr>)
    ensures
        r is Ok <==> spec_valid_subject(context, subject),
        r is Err ==> r->Err_0.bits == OPTIONS_ERR_BAD_SUBJECT,
        context == CONTEXT_INSTANCE ==> r == Ok::<Subject, OptionsErr>(Subject::Instance),
        context == CONTEXT_RESOURCE && subject != 0 ==> r is Ok && r->Ok_0 is Resource
            && r->Ok_0->Resource_0.spec_get() == subject,
        context == CONTEXT_BLANK ==> r == Ok::<Subject, OptionsErr>(Subject::Blank(subject)),
        context == CONTEXT_PORT ==> r == Ok::<Subject, OptionsErr>(Subject::Port(subject)),
{
    if context == CONTEXT_INSTANCE {
        Ok(Subject::Instance)
    } else if context == CONTEXT_RESOURCE {
        match Urid::new(subject) {
            Some(urid) => Ok(Subject::Resource(urid)),
            None => Err(OptionsErr::bad_subject()),
        }
    } else if context == CONTEXT_BLANK {
        Ok(Subject::Blank(subject))
    } else if context == CONTEXT_PORT {
        Ok(Subject::Port(subject))
    } else {
        Err(OptionsErr::bad_subject())
    }
}

/// One option entry, as exchanged with the host: a subject context, a key
/// URID, a requested value type URID, and the value's payload bytes.
pub struct OptionEntry {
    pub context: u32,
    pub subject: u32,
    pub key: u32,
    pub type_: u32,
    pub value: Vec<u8>,
}

/// A fresh write head handed to a plugin's typed getter: the plugin writes
/// exactly one Atom Record into it.
pub struct OptionWriter {
    head: SpaceHead,
}

impl OptionWriter {
    /// Every byte written so far.
    pub closed spec fn bytes(&self) -> Seq<u8> {
        self.head.bytes()
    }

    /// True while a record is under construction.
    pub closed spec fn is_active(&self) -> bool {
        self.head.is_active()
    }

    pub closed spec fn wf(&self) -> bool {
        self.head.wf()
    }

    /// The offset and type tag of the record under construction, if one is
    /// open.
    pub closed spec fn open_header(&self) -> Option<(int, u32)> {
        self.head.active_header()
    }

    /// True for a writer that nothing has been written into.
    pub open spec fn is_fresh(&self) -> bool {
        &&& self.wf()
        &&& !self.is_active()
        &&& self.bytes().len() == 0
    }

    /// A fresh writer over an empty buffer.
    pub fn new() -> (r: OptionWriter)
        ensures
            r.is_fresh(),
    {
        OptionWriter { head: SpaceHead::new() }
    }

    /// The bytes written so far.
    pub fn data(&self) -> (r: &Vec<u8>)
        ensures
            r@ == self.bytes(),
    {
        self.head.data()
    }

    /// Writes one complete integer Atom Record of the given type.
    pub fn init_int(&mut self, urid: Urid, value: i32) -> (r: Result<(), OptionsErr>)
        requires
            old(self).is_fresh(),
        ensures
            r is Ok,
            final(self).wf(),
            !final(self).is_active(),
            final(self).bytes() == crate::atom::spec_int_record(urid.spec_get(), value),
    {
        self.head.write_int_record(urid.get(), value);
        proof {
            assert(final(self).bytes() =~= crate::atom::spec_int_record(urid.spec_get(), value));
        }
        Ok(())
    }

    /// Writes one complete float Atom Record of the given type, carrying the
    /// value's bit pattern.
    pub fn init_float(&mut self, urid: Urid, bits: u32) -> (r: Result<(), OptionsErr>)
        requires
            old(self).is_fresh(),
        ensures
            r is Ok,
            final(self).wf(),
            !final(self).is_active(),
            final(self).bytes() == crate::atom::spec_float_record(urid.spec_get(), bits),
    {
        self.head.write_float_record(urid.get(), bits);
        proof {
            assert(final(self).bytes() =~= crate::atom::spec_float_record(
                urid.spec_get(),
                bits,
            ));
        }
        Ok(())
    }
}

impl OptionWriter {
    /// Reserves a vector Atom Record; elements are then appended with
    /// `append_elems` and the record is completed with `finish`.
    pub fn init_vector(&mut self, urid: Urid, child_ty: Urid) -> (r: Result<(), OptionsErr>)
        requires
            old(self).is_fresh(),
        ensures
            r is Ok,
            final(self).wf(),
            final(self).is_active(),
            final(self).open_header() == Some((0int, urid.spec_get())),
            final(self).bytes().len() == crate::atom::HEADER_LEN
                + crate::atom::VECTOR_BODY_LEN,
            final(self).bytes() == vstd::bytes::spec_u32_to_le_bytes(urid.spec_get())
                + vstd::bytes::spec_u32_to_le_bytes(0) + vstd::bytes::spec_u32_to_le_bytes(
                crate::atom::VECTOR_CHILD_SIZE,
            ) + vstd::bytes::spec_u32_to_le_bytes(child_ty.spec_get()),
    {
        self.head.begin_vector_record(urid.get(), child_ty.get());
        proof {
            vstd::bytes::lemma_auto_spec_u32_to_from_le_bytes();
        }
        Ok(())
    }

    /// Appends a run of four-byte elements to the open record.
    pub fn append_elems(&mut self, elems: &[u32])
        requires
            old(self).wf(),
            old(self).is_active(),
        ensures
            final(self).wf(),
            final(self).is_active(),
            final(self).open_header() == old(self).open_header(),
            final(self).bytes() == old(self).bytes() + crate::atom::spec_elems_bytes(elems@),
    {
        self.head.append_vector_elems(elems);
    }

    /// Completes the open record by back-patching its size field.
    pub fn finish(&mut self)
        requires
            old(self).wf(),
            old(self).is_active(),
            old(self).bytes().len() - old(self).open_header()->Some_0.0 - crate::atom::HEADER_LEN
                <= u32::MAX,
        ensures
            final(self).wf(),
            !final(self).is_active(),
            ({
                let (h, ty) = old(self).open_header()->Some_0;
                final(self).bytes() == old(self).bytes().take(h) + crate::atom::spec_record(
                    ty,
                    old(self).bytes().skip(h + crate::atom::HEADER_LEN),
                )
            }),
    {
        self.head.end_record();
    }
}

/// Typed access to options, implemented by a plugin. The host drives these
/// methods through the batch walkers below; what a getter writes is validated
/// there, against the entry's requested type, before the entry is updated.
pub trait Options {
    /// Writes the current value of the option named by `key` into `writer` as
    /// one Atom Record, or reports why it cannot.
    fn get(&self, key: Urid, subject: Subject, writer: &mut OptionWriter) -> (r: Result<
        (),
        OptionsErr,
    >)
        requires
            old(writer).is_fresh(),
    ;

    /// Takes a new value for the option named by `key`, handed over as an
    /// Atom Record view, or reports why it cannot.
    fn set(&self, key: Urid, subject: Subject, value: &UnidentifiedAtom) -> (r: Result<
        (),
        OptionsErr,
    >);
}

/// The bitwise OR of a run of per-entry error flags; an empty run gives zero,
/// so an empty batch means full success.
pub open spec fn spec_or_flags(flags: Seq<u32>) -> u32
    decreases flags.len(),
{
    if flags.len() == 0 {
        0u32
    } else {
        spec_or_flags(flags.drop_last()) | flags.last()
    }
}

/// What applying one getter outcome to one entry means: the non-value fields
/// are kept; exactly when the plugin succeeded and the written bytes begin
/// with a record of the entry's requested type, the entry's value becomes
/// that record's payload under a zero flag; any other outcome leaves the
/// value unchanged, under the plugin's own flags or the bad-value flag.
pub open spec fn spec_apply_get(
    before: OptionEntry,
    plugin_result: Result<(), OptionsErr>,
    written: Seq<u8>,
    after: OptionEntry,
    flags: u32,
) -> bool {
    &&& after.context == before.context
    &&& after.subject == before.subject
    &&& after.key == before.key
    &&& after.type_ == before.type_
    &&& match plugin_result {
        Ok(()) => match spec_split_record(written) {
            Some((ty, payload, rest)) => if ty == before.type_ {
                flags == 0 && after.value@ == payload
            } else {
                flags == OPTIONS_ERR_BAD_VALUE && after.value@ == before.value@
            },
            None => flags == OPTIONS_ERR_BAD_VALUE && after.value@ == before.value@,
        },
        Err(e) => flags == e.bits && after.value@ == before.value@,
    }
}

/// What one get-batch entry with a valid subject may become: its flag and
/// final state arise from some plugin outcome and some written bytes, as
/// `apply_get_outcome` specifies. In particular, its value is either
/// unchanged or, under a zero flag, the payload of a record carrying the
/// entry's requested type.
pub open spec fn spec_get_outcome(before: OptionEntry, after: OptionEntry, flags: u32) -> bool {
    exists|plugin_result: Result<(), OptionsErr>, written: Seq<u8>|
        spec_apply_get(before, plugin_result, written, after, flags)
}

/// What a whole get batch does: one flag per entry, the returned status their
/// bitwise OR. An entry whose subject is invalid contributes exactly the
/// bad-subject flag and is left as it was; every other entry's flag and final
/// state arise from some plugin outcome.
pub open spec fn spec_get_batch(
    before: Seq<OptionEntry>,
    after: Seq<OptionEntry>,
    flags: Seq<u32>,
    ret: u32,
) -> bool {
    &&& after.len() == before.len()
    &&& flags.len() == before.len()
    &&& ret == spec_or_flags(flags)
    &&& forall|i: int|
        0 <= i < before.len() ==> if spec_valid_subject(
            (#[trigger] before[i]).context,
            before[i].subject,
        ) {
            spec_get_outcome(before[i], after[i], flags[i])
        } else {
            flags[i] == OPTIONS_ERR_BAD_SUBJECT && after[i] == before[i]
        }
}

/// What a whole set batch does: one flag per entry, the returned status their
/// bitwise OR. An entry whose subject is invalid contributes exactly the
/// bad-subject flag; every other entry contributes whatever flags the
/// plugin's setter returned for it, zero on success.
pub open spec fn spec_set_batch(entries: Seq<OptionEntry>, flags: Seq<u32>, ret: u32) -> bool {
    &&& flags.len() == entries.len()
    &&& ret == spec_or_flags(flags)
    &&& forall|i: int|
        0 <= i < entries.len() && !spec_valid_subject(
            (#[trigger] entries[i]).context,
            entries[i].subject,
        ) ==> flags[i] == OPTIONS_ERR_BAD_SUBJECT
}

/// Applies what a plugin's getter produced to one option entry: exactly when
/// the plugin succeeded and the written bytes begin with a record of the
/// entry's requested type, the entry's value is overwritten with that record's
/// payload; any other outcome leaves the entry unchanged and yields the
/// plugin's own flags or the bad-value flag.
pub fn apply_get_outcome(
    entry: &mut OptionEntry,
    plugin_result: Result<(), OptionsErr>,
    written: &[u8],
) -> (flags: u32)
    ensures
        spec_apply_get(*old(entry), plugin_result, written@, *final(entry), flags),
{
    match plugin_result {
        Ok(_) => {
            match split_record(written) {
                Some((ty, payload, _rest_at)) => {
                    if ty == entry.type_ {
                        entry.value = payload;
                        0
                    } else {
                        OPTIONS_ERR_BAD_VALUE
                    }
                },
                None => OPTIONS_ERR_BAD_VALUE,
            }
        },
        Err(e) => e.bits,
    }
}

/// Walks a batch of option entries and asks the plugin for each entry's
/// current value, validating the produced record's type against the entry's
/// requested type before overwriting the entry's value bytes. Per-entry
/// failures are ORed into the returned status and never stop the walk; only
/// an entry's value bytes are ever rewritten, and an entry whose subject is
/// invalid is left exactly as it was.
pub fn get_options<P: Options>(plugin: &P, entries: &mut Vec<OptionEntry>) -> (ret: u32)
    requires
        forall|i: int| 0 <= i < old(entries)@.len() ==> (#[trigger] old(entries)@[i]).key != 0,
    ensures
        final(entries)@.len() == old(entries)@.len(),
        exists|flags: Seq<u32>|
            #[trigger] spec_get_batch(old(entries)@, final(entries)@, flags, ret),
        old(entries)@.len() == 0 ==> ret == 0,
        (old(entries)@.len() > 0 && forall|i: int|
            0 <= i < old(entries)@.len() ==> !spec_valid_subject(
                (#[trigger] old(entries)@[i]).context,
                old(entries)@[i].subject,
            )) ==> ret == OPTIONS_ERR_BAD_SUBJECT,
        forall|i: int|
            0 <= i < old(entries)@.len() ==> {
                &&& (#[trigger] final(entries)@[i]).context == old(entries)@[i].context
                &&& final(entries)@[i].subject == old(entries)@[i].subject
                &&& final(entries)@[i].key == old(entries)@[i].key
                &&& final(entries)@[i].type_ == old(entries)@[i].type_
            },
        forall|i: int|
            0 <= i < old(entries)@.len() && !spec_valid_subject(
                (#[trigger] old(entries)@[i]).context,
                old(entries)@[i].subject,
            ) ==> final(entries)@[i].value@ == old(entries)@[i].value@,
        (exists|i: int|
            0 <= i < old(entries)@.len() && !spec_valid_subject(
                (#[trigger] old(entries)@[i]).context,
                old(entries)@[i].subject,
            )) ==> ret & OPTIONS_ERR_BAD_SUBJECT != 0,
{
    let mut ret: u32 = 0;
    let ghost mut flag_trail: Seq<u32> = Seq::empty();
    let n = entries.len();
    let mut i: usize = 0;
    while i < n
        invariant
            i <= n,
            n == entries@.len(),
            n == old(entries)@.len(),
            forall|j: int| 0 <= j < n ==> (#[trigger] old(entries)@[j]).key != 0,
            forall|j: int| i <= j < n ==> entries@[j] == old(entries)@[j],
            flag_trail.len() == i,
            ret == spec_or_flags(flag_trail),
            forall|j: int|
                0 <= j < i ==> if spec_valid_subject(
                    (#[trigger] old(entries)@[j]).context,
                    old(entries)@[j].subject,
                ) {
                    spec_get_outcome(old(entries)@[j], entries@[j], flag_trail[j])
                } else {
                    flag_trail[j] == OPTIONS_ERR_BAD_SUBJECT && entries@[j] == old(entries)@[j]
                },
            (i > 0 && forall|j: int|
                0 <= j < i ==> !spec_valid_subject(
                    (#[trigger] old(entries)@[j]).context,
                    old(entries)@[j].subject,
                )) ==> ret == OPTIONS_ERR_BAD_SUBJECT,
            forall|j: int|
                0 <= j < i ==> {
                    &&& (#[trigger] entries@[j]).context == old(entries)@[j].context
                    &&& entries@[j].subject == old(entries)@[j].subject
                    &&& entries@[j].key == old(entries)@[j].key
                    &&& entries@[j].type_ == old(entries)@[j].type_
                },
            forall|j: int|
                0 <= j < i && !spec_valid_subject(
                    (#[trigger] old(entries)@[j]).context,
                    old(entries)@[j].subject,
                ) ==> entries@[j].value@ == old(entries)@[j].value@,
            (exists|j: int|
                0 <= j < i && !spec_valid_subject(
                    (#[trigger] old(entries)@[j]).context,
                    old(entries)@[j].subject,
                )) ==> ret & OPTIONS_ERR_BAD_SUBJECT != 0,
        decreases n - i,
    {
        let context = entries[i].context;
        let subject = entries[i].subject;
        let key = entries[i].key;
        match try_extract_subject(context, subject) {
            Err(e) => {
                let new_ret = ret | e.bits;
                proof {
                    assert(new_ret & OPTIONS_ERR_BAD_SUBJECT != 0) by (bit_vector)
                        requires
                            new_ret == ret | OPTIONS_ERR_BAD_SUBJECT,
                    ;
                    assert((ret == 0 || ret == OPTIONS_ERR_BAD_SUBJECT) ==> new_ret
                        == OPTIONS_ERR_BAD_SUBJECT) by (bit_vector)
                        requires
                            new_ret == ret | OPTIONS_ERR_BAD_SUBJECT,
                    ;
                    let prior_trail = flag_trail;
                    flag_trail = flag_trail.push(OPTIONS_ERR_BAD_SUBJECT);
                    assert(flag_trail.drop_last() =~= prior_trail);
                }
                ret = new_ret;
            },
            Ok(subj) => {
                proof {
                    assert(old(entries)@[i as int].key != 0);
                }
                let urid = match Urid::new(key) {
                    Some(u) => u,
                    None => unreached(),
                };
                let mut writer = OptionWriter::new();
                let plugin_result = plugin.get(urid, subj, &mut writer);
                let written = slice_to_vec(writer.data().as_slice());
                proof {
                    assert(entries@[i as int] == old(entries)@[i as int]);
                }
                let flags = apply_get_outcome(&mut entries[i], plugin_result, written.as_slice());
                let new_ret = ret | flags;
                proof {
                    assert(ret & OPTIONS_ERR_BAD_SUBJECT != 0 ==> new_ret
                        & OPTIONS_ERR_BAD_SUBJECT != 0) by (bit_vector)
                        requires
                            new_ret == ret | flags,
                    ;
                    assert(spec_apply_get(
                        old(entries)@[i as int],
                        plugin_result,
                        written@,
                        entries@[i as int],
                        flags,
                    ));
                    assert(spec_get_outcome(old(entries)@[i as int], entries@[i as int], flags));
                    let prior_trail = flag_trail;
                    flag_trail = flag_trail.push(flags);
                    assert(flag_trail.drop_last() =~= prior_trail);
                }
                ret = new_ret;
            },
        }
        i = i + 1;
    }
    proof {
        assert(spec_get_batch(old(entries)@, entries@, flag_trail, ret));
    }
    ret
}

/// Walks a batch of option entries and hands the plugin each entry's value,
/// reconstructed as an Atom Record view from the entry's type and payload
/// bytes. The entries themselves are never modified; per-entry failures are
/// ORed into the returned status and never stop the walk.
pub fn set_options<P: Options>(plugin: &P, entries: &Vec<OptionEntry>) -> (ret: u32)
    requires
        forall|i: int| 0 <= i < entries@.len() ==> (#[trigger] entries@[i]).key != 0,
        forall|i: int| 0 <= i < entries@.len() ==> (#[trigger] entries@[i]).value@.len()
            <= u32::MAX,
    ensures
        exists|flags: Seq<u32>| #[trigger] spec_set_batch(entries@, flags, ret),
        entries@.len() == 0 ==> ret == 0,
        (entries@.len() > 0 && forall|i: int|
            0 <= i < entries@.len() ==> !spec_valid_subject(
                (#[trigger] entries@[i]).context,
                entries@[i].subject,
            )) ==> ret == OPTIONS_ERR_BAD_SUBJECT,
        (exists|i: int|
            0 <= i < entries@.len() && !spec_valid_subject(
                (#[trigger] entries@[i]).context,
                entries@[i].subject,
            )) ==> ret & OPTIONS_ERR_BAD_SUBJECT != 0,
{
    let mut ret: u32 = 0;
    let ghost mut flag_trail: Seq<u32> = Seq::empty();
    let n = entries.len();
    let mut i: usize = 0;
    while i < n
        invariant
            i <= n,
            n == entries@.len(),
            forall|j: int| 0 <= j < n ==> (#[trigger] entries@[j]).key != 0,
            forall|j: int| 0 <= j < entries@.len() ==> (#[trigger] entries@[j]).value@.len()
                <= u32::MAX,
            flag_trail.len() == i,
            ret == spec_or_flags(flag_trail),
            forall|j: int|
                0 <= j < i && !spec_valid_subject(
                    (#[trigger] entries@[j]).context,
                    entries@[j].subject,
                ) ==> flag_trail[j] == OPTIONS_ERR_BAD_SUBJECT,
            (i > 0 && forall|j: int|
                0 <= j < i ==> !spec_valid_subject(
                    (#[trigger] entries@[j]).context,
                    entries@[j].subject,
                )) ==> ret == OPTIONS_ERR_BAD_SUBJECT,
            (exists|j: int|
                0 <= j < i && !spec_valid_subject(
                    (#[trigger] entries@[j]).context,
                    entries@[j].subject,
                )) ==> ret & OPTIONS_ERR_BAD_SUBJECT != 0,
        decreases n - i,
    {
        let context = entries[i].context;
        let subject = entries[i].subject;
        let key = entries[i].key;
        match try_extract_subject(context, subject) {
            Err(e) => {
                let new_ret = ret | e.bits;
                proof {
                    assert(new_ret & OPTIONS_ERR_BAD_SUBJECT != 0) by (bit_vector)
                        requires
                            new_ret == ret | OPTIONS_ERR_BAD_SUBJECT,
                    ;
                    assert((ret == 0 || ret == OPTIONS_ERR_BAD_SUBJECT) ==> new_ret
                        == OPTIONS_ERR_BAD_SUBJECT) by (bit_vector)
                        requires
                            new_ret == ret | OPTIONS_ERR_BAD_SUBJECT,
                    ;
                    let prior_trail = flag_trail;
                    flag_trail = flag_trail.push(OPTIONS_ERR_BAD_SUBJECT);
                    assert(flag_trail.drop_last() =~= prior_trail);
                }
                ret = new_ret;
            },
            Ok(subj) => {
                proof {
                    assert(entries@[i as int].key != 0);
                }
                let urid = match Urid::new(key) {
                    Some(u) => u,
                    None => unreached(),
                };
                let record = encode_record(entries[i].type_, entries[i].value.as_slice());
                let atom = UnidentifiedAtom::new(record);
                let flags = match plugin.set(urid, subj, &atom) {
                    Ok(_) => 0u32,
                    Err(e) => e.bits,
                };
                let new_ret = ret | flags;
                proof {
                    assert(ret & OPTIONS_ERR_BAD_SUBJECT != 0 ==> new_ret
                        & OPTIONS_ERR_BAD_SUBJECT != 0) by (bit_vector)
                        requires
                            new_ret == ret | flags,
                    ;
                    let prior_trail = flag_trail;
                    flag_trail = flag_trail.push(flags);
                    assert(flag_trail.drop_last() =~= prior_trail);
                }
                ret = new_ret;
            },
        }
        i = i + 1;
    }
    proof {
        assert(spec_set_batch(entries@, flag_trail, ret));
    }
    ret
}

/// The record bytes each table slice denotes within a data buffer.
pub open spec fn spec_slices_view(slices: Seq<(u32, (usize, usize))>, data: Seq<u8>) -> Seq<
    (u32, Seq<u8>),
> {
    slices.map_values(|e: (u32, (usize, usize))| (e.0, data.subrange(e.1.0 as int, e.1.1 as int)))
}

/// The record an option entry stands for, keyed by the entry's key.
pub open spec fn spec_entry_record(e: OptionEntry) -> (u32, Seq<u8>) {
    (e.key, spec_record(e.type_, e.value@))
}

/// The records a run of option entries stands for, keyed by their keys.
pub open spec fn spec_entries_records(entries: Seq<OptionEntry>) -> Seq<(u32, Seq<u8>)> {
    entries.map_values(|e: OptionEntry| spec_entry_record(e))
}

/// Host capability that communicates options to the plugin at instantiation
/// time: the supplied entries are re-encoded as contiguous Atom Records and
/// indexed by key, so that each option can be retrieved and decoded on demand.
pub struct LV2Options {
    data: Vec<u8>,
    slices: Vec<(u32, (usize, usize))>,
}

impl LV2Options {
    /// The concatenated record bytes.
    pub closed spec fn spec_data(&self) -> Seq<u8> {
        self.data@
    }

    /// The key-to-range index over the record bytes.
    pub closed spec fn spec_slices(&self) -> Seq<(u32, (usize, usize))> {
        self.slices@
    }

    pub open spec fn wf(&self) -> bool {
        forall|i: int|
            0 <= i < self.spec_slices().len() ==> {
                &&& (#[trigger] self.spec_slices()[i]).1.0 <= self.spec_slices()[i].1.1
                &&& self.spec_slices()[i].1.1 <= self.spec_data().len()
            }
    }

    /// The mapping from option key to that option's record bytes, a later
    /// entry for a key overriding an earlier one.
    pub open spec fn as_map(&self) -> Map<u32, Seq<u8>> {
        spec_assoc_map(spec_slices_view(self.spec_slices(), self.spec_data()))
    }

    /// Builds the option table from the host-supplied entries: each entry is
    /// re-encoded as one Atom Record and indexed under the entry's key.
    pub fn new(entries: &Vec<OptionEntry>) -> (r: LV2Options)
        requires
            forall|i: int| 0 <= i < entries@.len() ==> (#[trigger] entries@[i]).value@.len()
                <= u32::MAX,
        ensures
            r.wf(),
            r.as_map() == spec_assoc_map(spec_entries_records(entries@)),
    {
        let mut data: Vec<u8> = Vec::new();
        let mut slices: Vec<(u32, (usize, usize))> = Vec::new();
        let n = entries.len();
        let mut i: usize = 0;
        proof {
            assert(spec_slices_view(slices@, data@) =~= spec_entries_records(entries@.take(0)));
        }
        while i < n
            invariant
                i <= n,
                n == entries@.len(),
                forall|j: int| 0 <= j < n ==> (#[trigger] entries@[j]).value@.len() <= u32::MAX,
                forall|j: int|
                    0 <= j < slices@.len() ==> {
                        &&& (#[trigger] slices@[j]).1.0 <= slices@[j].1.1
                        &&& slices@[j].1.1 <= data@.len()
                    },
                spec_slices_view(slices@, data@) == spec_entries_records(entries@.take(i as int)),
            decreases n - i,
        {
            let ghost prev_view = spec_slices_view(slices@, data@);
            let ghost prev_data = data@;
            let start = data.len();
            let mut rec = encode_record(entries[i].type_, entries[i].value.as_slice());
            data.append(&mut rec);
            let end = data.len();
            slices.push((entries[i].key, (start, end)));
            proof {
                let lhs = spec_slices_view(slices@, data@);
                let rhs = spec_entries_records(entries@.take(i + 1));
                assert(prev_view.len() == i as int);
                assert(lhs.len() == slices@.len());
                assert(lhs.len() == i + 1);
                assert(rhs.len() == i + 1);
                assert forall|j: int| 0 <= j < i + 1 implies lhs[j] == rhs[j] by {
                    assert(entries@.take(i + 1)[j] == entries@[j]);
                    if j < i {
                        assert(data@.subrange(
                            slices@[j].1.0 as int,
                            slices@[j].1.1 as int,
                        ) =~= prev_data.subrange(slices@[j].1.0 as int, slices@[j].1.1 as int));
                        assert(prev_view[j] == spec_entries_records(entries@.take(i as int))[j]);
                        assert(entries@.take(i as int)[j] == entries@[j]);
                        assert(lhs[j] == prev_view[j]);
                    } else {
                        assert(data@.subrange(start as int, end as int) =~= spec_record(
                            entries@[i as int].type_,
                            entries@[i as int].value@,
                        ));
                        assert(lhs[j] == (entries@[i as int].key, data@.subrange(
                            start as int,
                            end as int,
                        )));
                    }
                }
                assert(lhs =~= rhs);
            }
            i = i + 1;
        }
        proof {
            assert(entries@.take(n as int) =~= entries@);
        }
        LV2Options { data, slices }
    }

    /// Tries to retrieve the option stored under `urid`, as a read-only Atom
    /// Record view from which the option can be decoded, or `None` when no
    /// entry carries that key.
    pub fn retrieve_option(&self, urid: Urid) -> (r: Option<UnidentifiedAtom>)
        requires
            self.wf(),
        ensures
            match r {
                Some(a) => self.as_map().contains_key(urid.spec_get()) && a.bytes()
                    == self.as_map()[urid.spec_get()],
                None => !self.as_map().contains_key(urid.spec_get()),
            },
    {
        let k = urid.get();
        let n = self.slices.len();
        let mut found: Option<usize> = None;
        let mut i: usize = 0;
        proof {
            assert(spec_slices_view(self.spec_slices(), self.spec_data()).take(0) =~= Seq::<
                (u32, Seq<u8>),
            >::empty());
        }
        while i < n
            invariant
                i <= n,
                n == self.spec_slices().len(),
                self.wf(),
                match found {
                    Some(j) => {
                        &&& j < i
                        &&& self.spec_slices()[j as int].0 == k
                        &&& spec_assoc_map(
                            spec_slices_view(self.spec_slices(), self.spec_data()).take(i as int),
                        ).contains_key(k)
                        &&& spec_assoc_map(
                            spec_slices_view(self.spec_slices(), self.spec_data()).take(i as int),
                        )[k] == spec_slices_view(self.spec_slices(), self.spec_data())[j as int].1
                    },
                    None => !spec_assoc_map(
                        spec_slices_view(self.spec_slices(), self.spec_data()).take(i as int),
                    ).contains_key(k),
                },
            decreases n - i,
        {
            proof {
                let view = spec_slices_view(self.spec_slices(), self.spec_data());
                assert(view.take(i + 1).drop_last() =~= view.take(i as int));
                assert(view.take(i + 1).last() == view[i as int]);
            }
            if self.slices[i].0 == k {
                found = Some(i);
            }
            i = i + 1;
        }
        proof {
            let view = spec_slices_view(self.spec_slices(), self.spec_data());
            assert(view.take(n as int) =~= view);
        }
        match found {
            Some(j) => {
                let (start, end) = self.slices[j].1;
                let bytes = slice_to_vec(slice_subrange(self.data.as_slice(), start, end));
                Some(UnidentifiedAtom::new(bytes))
            },
            None => None,
        }
    }
}

} // verus!
