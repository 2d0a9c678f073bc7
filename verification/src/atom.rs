//! The Binary Value Format: tagged, length-prefixed records ("Atom Records")
//! and the low-level primitives that append them to and parse them out of a
//! byte space.
//!
//! A record is laid out as a `u32` type tag (a URID), a `u32` payload byte
//! length, and then exactly that many payload bytes, all little-endian.

use crate::urid::Urid;
use vstd::bytes::*;
use vstd::prelude::*;
use vstd::slice::*;

verus! {

/// Number of bytes in a record header: a four-byte type tag and a four-byte
/// payload size.
pub const HEADER_LEN: usize = 8;

/// The bytes of one Atom Record: type tag, payload length, payload.
pub open spec fn spec_record(ty: u32, payload: Seq<u8>) -> Seq<u8>
    recommends
        payload.len() <= u32::MAX,
{
    spec_u32_to_le_bytes(ty) + spec_u32_to_le_bytes(payload.len() as u32) + payload
}

/// Parses a byte space that holds exactly one Atom Record: the declared size
/// must account for every byte after the header.
pub open spec fn spec_parse_record(bytes: Seq<u8>) -> Option<(u32, Seq<u8>)> {
    if bytes.len() >= HEADER_LEN {
        let ty = spec_u32_from_le_bytes(bytes.subrange(0, 4));
        let size = spec_u32_from_le_bytes(bytes.subrange(4, 8));
        if bytes.len() == HEADER_LEN + size {
            Some((ty, bytes.skip(HEADER_LEN as int)))
        } else {
            None
        }
    } else {
        None
    }
}

/// Splits the leading Atom Record off a byte space: its type tag, its payload,
/// and the remaining bytes. A declared size that runs past the end of the
/// space is a decode failure, never an out-of-bounds read.
pub open spec fn spec_split_record(bytes: Seq<u8>) -> Option<(u32, Seq<u8>, Seq<u8>)> {
    if bytes.len() >= HEADER_LEN {
        let ty = spec_u32_from_le_bytes(bytes.subrange(0, 4));
        let size = spec_u32_from_le_bytes(bytes.subrange(4, 8));
        if HEADER_LEN + size <= bytes.len() {
            Some(
                (
                    ty,
                    bytes.subrange(HEADER_LEN as int, HEADER_LEN + size),
                    bytes.skip(HEADER_LEN + size),
                ),
            )
        } else {
            None
        }
    } else {
        None
    }
}

/// Encoding then parsing an Atom Record recovers the same type tag and the
/// same payload bytes.
pub proof fn lemma_record_round_trip(ty: u32, payload: Seq<u8>)
    requires
        payload.len() <= u32::MAX,
    ensures
        spec_parse_record(spec_record(ty, payload)) == Some((ty, payload)),
{
    lemma_auto_spec_u32_to_from_le_bytes();
    let bytes = spec_record(ty, payload);
    assert(bytes.subrange(0, 4) =~= spec_u32_to_le_bytes(ty));
    assert(bytes.subrange(4, 8) =~= spec_u32_to_le_bytes(payload.len() as u32));
    assert(bytes.skip(HEADER_LEN as int) =~= payload);
}

/// A record followed by more bytes splits back into the same type tag, the
/// same payload, and exactly the bytes that followed it.
pub proof fn lemma_record_split_round_trip(ty: u32, payload: Seq<u8>, rest: Seq<u8>)
    requires
        payload.len() <= u32::MAX,
    ensures
        spec_split_record(spec_record(ty, payload) + rest) == Some((ty, payload, rest)),
{
    lemma_auto_spec_u32_to_from_le_bytes();
    let bytes = spec_record(ty, payload) + rest;
    assert(bytes.subrange(0, 4) =~= spec_u32_to_le_bytes(ty));
    assert(bytes.subrange(4, 8) =~= spec_u32_to_le_bytes(payload.len() as u32));
    assert(bytes.subrange(HEADER_LEN as int, HEADER_LEN + payload.len()) =~= payload);
    assert(bytes.skip(HEADER_LEN + payload.len()) =~= rest);
}

/// Appends one complete Atom Record to a byte buffer.
pub fn encode_record(ty: u32, payload: &[u8]) -> (r: Vec<u8>)
    requires
        payload@.len() <= u32::MAX,
    ensures
        r@ == spec_record(ty, payload@),
{
    let mut r = u32_to_le_bytes(ty);
    let mut size_bytes = u32_to_le_bytes(payload.len() as u32);
    r.append(&mut size_bytes);
    r.extend_from_slice(payload);
    proof {
        assert(r@ =~= spec_record(ty, payload@));
    }
    r
}

/// Parses a byte space holding exactly one Atom Record, copying its payload
/// out; fails on a truncated header or on a declared size that disagrees with
/// the actual byte count.
pub fn parse_record(bytes: &[u8]) -> (r: Option<(u32, Vec<u8>)>)
    ensures
        match r {
            Some((ty, payload)) => spec_parse_record(bytes@) == Some((ty, payload@)),
            None => spec_parse_record(bytes@) is None,
        },
{
    if bytes.len() < HEADER_LEN {
        return None;
    }
    let ty = u32_from_le_bytes(slice_subrange(bytes, 0, 4));
    let size = u32_from_le_bytes(slice_subrange(bytes, 4, 8));
    if bytes.len() - HEADER_LEN != size as usize {
        return None;
    }
    let payload = slice_to_vec(slice_subrange(bytes, HEADER_LEN, bytes.len()));
    proof {
        assert(payload@ =~= bytes@.skip(HEADER_LEN as int));
    }
    Some((ty, payload))
}

/// Splits the leading Atom Record off a byte space, copying its payload out
/// and returning the offset where the remaining bytes begin.
pub fn split_record(bytes: &[u8]) -> (r: Option<(u32, Vec<u8>, usize)>)
    ensures
        match r {
            Some((ty, payload, rest_at)) => {
                &&& rest_at == HEADER_LEN + payload@.len()
                &&& rest_at <= bytes@.len()
                &&& spec_split_record(bytes@) == Some(
                    (ty, payload@, bytes@.skip(rest_at as int)),
                )
            },
            None => spec_split_record(bytes@) is None,
        },
{
    if bytes.len() < HEADER_LEN {
        return None;
    }
    let ty = u32_from_le_bytes(slice_subrange(bytes, 0, 4));
    let size = u32_from_le_bytes(slice_subrange(bytes, 4, 8));
    if (size as usize) > bytes.len() - HEADER_LEN {
        return None;
    }
    let rest_at = HEADER_LEN + size as usize;
    let payload = slice_to_vec(slice_subrange(bytes, HEADER_LEN, rest_at));
    Some((ty, payload, rest_at))
}

/// Slices an arbitrary sub-range off a byte space for a nested reader. An
/// out-of-range request is a decode failure, never an out-of-bounds read.
pub fn slice_range(bytes: &[u8], start: usize, end: usize) -> (r: Option<Vec<u8>>)
    ensures
        match r {
            Some(v) => start <= end <= bytes@.len() && v@ == bytes@.subrange(
                start as int,
                end as int,
            ),
            None => !(start <= end <= bytes@.len()),
        },
{
    if start <= end && end <= bytes.len() {
        Some(slice_to_vec(slice_subrange(bytes, start, end)))
    } else {
        None
    }
}

/// Overwrites `src.len()` bytes of `buf` starting at `at`, leaving every other
/// byte as it was.
fn write_bytes_at(buf: &mut Vec<u8>, at: usize, src: &[u8])
    requires
        at + src@.len() <= old(buf)@.len(),
    ensures
        final(buf)@.len() == old(buf)@.len(),
        final(buf)@ == old(buf)@.take(at as int) + src@ + old(buf)@.skip(at + src@.len()),
{
    let buf_len = buf.len();
    let mut i: usize = 0;
    while i < src.len()
        invariant
            i <= src@.len(),
            at + src@.len() <= buf_len,
            buf_len == buf@.len(),
            buf@.len() == old(buf)@.len(),
            forall|j: int| 0 <= j < buf@.len() && !(at <= j < at + i) ==> buf@[j] == old(buf)@[j],
            forall|j: int| 0 <= j < i ==> buf@[at + j] == src@[j],
        decreases src@.len() - i,
    {
        let b = *slice_index_get(src, i);
        let at_i = at + i;
        buf.as_mut_slice()[at_i] = b;
        i = i + 1;
    }
    proof {
        assert(buf@ =~= old(buf)@.take(at as int) + src@ + old(buf)@.skip(at + src@.len()));
    }
}

/// Payload of an integer atom: the value's four little-endian bytes.
pub open spec fn spec_int_payload(value: i32) -> Seq<u8> {
    spec_u32_to_le_bytes(value as u32)
}

/// One complete integer Atom Record.
pub open spec fn spec_int_record(ty: u32, value: i32) -> Seq<u8> {
    spec_record(ty, spec_int_payload(value))
}

/// Payload of a float atom. The value travels as its raw bit pattern: the
/// record's bytes are reproduced bit-for-bit, and this crate never interprets
/// them numerically.
pub open spec fn spec_float_payload(bits: u32) -> Seq<u8> {
    spec_u32_to_le_bytes(bits)
}

/// One complete float Atom Record, carrying the value's bit pattern.
pub open spec fn spec_float_record(ty: u32, bits: u32) -> Seq<u8> {
    spec_record(ty, spec_float_payload(bits))
}

/// Each vector element occupies four bytes.
pub const VECTOR_CHILD_SIZE: u32 = 4;

/// Number of bytes in a vector payload's own header: the element size and the
/// element type tag.
pub const VECTOR_BODY_LEN: usize = 8;

/// The concatenated little-endian bytes of a run of four-byte elements.
pub open spec fn spec_elems_bytes(elems: Seq<u32>) -> Seq<u8>
    decreases elems.len(),
{
    if elems.len() == 0 {
        Seq::empty()
    } else {
        spec_u32_to_le_bytes(elems[0]) + spec_elems_bytes(elems.skip(1))
    }
}

/// The four-byte elements read back out of a run of bytes.
pub open spec fn spec_elems_of_bytes(bytes: Seq<u8>) -> Seq<u32>
    decreases bytes.len(),
{
    if bytes.len() < 4 {
        Seq::empty()
    } else {
        seq![spec_u32_from_le_bytes(bytes.take(4))] + spec_elems_of_bytes(bytes.skip(4))
    }
}

/// Payload of a vector atom: the element size, the element type tag, then the
/// elements themselves.
pub open spec fn spec_vector_payload(child_ty: u32, elems: Seq<u32>) -> Seq<u8> {
    spec_u32_to_le_bytes(VECTOR_CHILD_SIZE) + spec_u32_to_le_bytes(child_ty) + spec_elems_bytes(
        elems,
    )
}

/// One complete vector Atom Record.
pub open spec fn spec_vector_record(ty: u32, child_ty: u32, elems: Seq<u32>) -> Seq<u8> {
    spec_record(ty, spec_vector_payload(child_ty, elems))
}

/// Reading an integer atom: the record must carry the expected type tag and
/// exactly four payload bytes, else the read is a decode failure.
pub open spec fn spec_read_int(bytes: Seq<u8>, expected_ty: u32) -> Option<i32> {
    match spec_parse_record(bytes) {
        Some((ty, payload)) => if ty == expected_ty && payload.len() == 4 {
            Some(spec_u32_from_le_bytes(payload) as i32)
        } else {
            None
        },
        None => None,
    }
}

/// Reading a float atom's bit pattern, under the same type and size checks as
/// an integer atom.
pub open spec fn spec_read_float_bits(bytes: Seq<u8>, expected_ty: u32) -> Option<u32> {
    match spec_parse_record(bytes) {
        Some((ty, payload)) => if ty == expected_ty && payload.len() == 4 {
            Some(spec_u32_from_le_bytes(payload))
        } else {
            None
        },
        None => None,
    }
}

/// Reading a vector atom: the record must carry the expected type tag, a
/// payload starting with the expected element size and element type, and a
/// whole number of elements.
pub open spec fn spec_read_vector(bytes: Seq<u8>, expected_ty: u32, expected_child: u32) -> Option<
    Seq<u32>,
> {
    match spec_parse_record(bytes) {
        Some((ty, payload)) => if ty == expected_ty && payload.len() >= VECTOR_BODY_LEN
            && spec_u32_from_le_bytes(payload.subrange(0, 4)) == VECTOR_CHILD_SIZE
            && spec_u32_from_le_bytes(payload.subrange(4, 8)) == expected_child && (payload.len()
            - VECTOR_BODY_LEN) % 4 == 0 {
            Some(spec_elems_of_bytes(payload.skip(VECTOR_BODY_LEN as int)))
        } else {
            None
        },
        None => None,
    }
}

/// The element bytes of `elems` occupy exactly four bytes per element.
pub proof fn lemma_elems_bytes_len(elems: Seq<u32>)
    ensures
        spec_elems_bytes(elems).len() == 4 * elems.len(),
    decreases elems.len(),
{
    lemma_auto_spec_u32_to_from_le_bytes();
    if elems.len() > 0 {
        lemma_elems_bytes_len(elems.skip(1));
    }
}

/// Appending one more element appends its four bytes.
pub proof fn lemma_elems_bytes_push(elems: Seq<u32>, x: u32)
    ensures
        spec_elems_bytes(elems.push(x)) == spec_elems_bytes(elems) + spec_u32_to_le_bytes(x),
    decreases elems.len(),
{
    lemma_auto_spec_u32_to_from_le_bytes();
    if elems.len() == 0 {
        assert(elems.push(x)[0] == x);
        assert(elems.push(x).skip(1) =~= Seq::<u32>::empty());
        assert(spec_elems_bytes(Seq::<u32>::empty()) == Seq::<u8>::empty());
        assert(spec_elems_bytes(elems.push(x)) =~= spec_elems_bytes(elems) + spec_u32_to_le_bytes(
            x,
        ));
    } else {
        assert(elems.push(x)[0] == elems[0]);
        assert(elems.push(x).skip(1) =~= elems.skip(1).push(x));
        lemma_elems_bytes_push(elems.skip(1), x);
        assert(spec_elems_bytes(elems.push(x)) == spec_u32_to_le_bytes(elems[0]) + (
        spec_elems_bytes(elems.skip(1)) + spec_u32_to_le_bytes(x)));
        assert(spec_elems_bytes(elems.push(x)) =~= spec_elems_bytes(elems) + spec_u32_to_le_bytes(
            x,
        ));
    }
}

/// Serializing a run of elements and reading it back recovers the same
/// elements.
pub proof fn lemma_elems_round_trip(elems: Seq<u32>)
    ensures
        spec_elems_of_bytes(spec_elems_bytes(elems)) == elems,
    decreases elems.len(),
{
    lemma_auto_spec_u32_to_from_le_bytes();
    if elems.len() == 0 {
        assert(spec_elems_of_bytes(spec_elems_bytes(elems)) =~= elems);
    } else {
        let bytes = spec_elems_bytes(elems);
        lemma_elems_bytes_len(elems.skip(1));
        assert(bytes.take(4) =~= spec_u32_to_le_bytes(elems[0]));
        assert(bytes.skip(4) =~= spec_elems_bytes(elems.skip(1)));
        lemma_elems_round_trip(elems.skip(1));
        assert(spec_elems_of_bytes(bytes) =~= elems);
    }
}

/// Writing an integer atom and reading it back under the same type tag
/// recovers the value.
pub proof fn lemma_int_round_trip(ty: u32, value: i32)
    ensures
        spec_read_int(spec_int_record(ty, value), ty) == Some(value),
{
    lemma_auto_spec_u32_to_from_le_bytes();
    lemma_record_round_trip(ty, spec_int_payload(value));
    assert((value as u32) as i32 == value) by (bit_vector);
}

/// Writing a float atom and reading it back under the same type tag recovers
/// the exact bit pattern.
pub proof fn lemma_float_round_trip(ty: u32, bits: u32)
    ensures
        spec_read_float_bits(spec_float_record(ty, bits), ty) == Some(bits),
{
    lemma_auto_spec_u32_to_from_le_bytes();
    lemma_record_round_trip(ty, spec_float_payload(bits));
}

/// Writing a vector atom and reading it back under the same type and element
/// tags recovers every element.
pub proof fn lemma_vector_round_trip(ty: u32, child_ty: u32, elems: Seq<u32>)
    requires
        VECTOR_BODY_LEN + 4 * elems.len() <= u32::MAX,
    ensures
        spec_read_vector(spec_vector_record(ty, child_ty, elems), ty, child_ty) == Some(elems),
{
    lemma_auto_spec_u32_to_from_le_bytes();
    lemma_elems_bytes_len(elems);
    let payload = spec_vector_payload(child_ty, elems);
    lemma_record_round_trip(ty, payload);
    assert(payload.subrange(0, 4) =~= spec_u32_to_le_bytes(VECTOR_CHILD_SIZE));
    assert(payload.subrange(4, 8) =~= spec_u32_to_le_bytes(child_ty));
    assert(payload.skip(VECTOR_BODY_LEN as int) =~= spec_elems_bytes(elems));
    lemma_elems_round_trip(elems);
}

/// Reads an integer atom out of a byte space.
pub fn read_int_record(bytes: &[u8], expected_ty: u32) -> (r: Option<i32>)
    ensures
        r == spec_read_int(bytes@, expected_ty),
{
    match parse_record(bytes) {
        Some((ty, payload)) => {
            if ty == expected_ty && payload.len() == 4 {
                let bits = u32_from_le_bytes(payload.as_slice());
                proof {
                    assert(payload@.subrange(0, 4) =~= payload@);
                }
                Some(#[verifier::truncate] (bits as i32))
            } else {
                None
            }
        },
        None => None,
    }
}

/// Reads a float atom's bit pattern out of a byte space.
pub fn read_float_record(bytes: &[u8], expected_ty: u32) -> (r: Option<u32>)
    ensures
        r == spec_read_float_bits(bytes@, expected_ty),
{
    match parse_record(bytes) {
        Some((ty, payload)) => {
            if ty == expected_ty && payload.len() == 4 {
                proof {
                    assert(payload@.subrange(0, 4) =~= payload@);
                }
                Some(u32_from_le_bytes(payload.as_slice()))
            } else {
                None
            }
        },
        None => None,
    }
}

/// Reads a vector atom's elements out of a byte space.
pub fn read_vector_record(bytes: &[u8], expected_ty: u32, expected_child: u32) -> (r: Option<
    Vec<u32>,
>)
    ensures
        match r {
            Some(elems) => spec_read_vector(bytes@, expected_ty, expected_child) == Some(elems@),
            None => spec_read_vector(bytes@, expected_ty, expected_child) is None,
        },
{
    let parsed = match parse_record(bytes) {
        Some(p) => p,
        None => {
            return None;
        },
    };
    let (ty, payload) = parsed;
    if ty != expected_ty || payload.len() < VECTOR_BODY_LEN {
        return None;
    }
    let child_size = u32_from_le_bytes(slice_subrange(payload.as_slice(), 0, 4));
    let child_ty = u32_from_le_bytes(slice_subrange(payload.as_slice(), 4, 8));
    if child_size != VECTOR_CHILD_SIZE || child_ty != expected_child || (payload.len()
        - VECTOR_BODY_LEN) % 4 != 0 {
        return None;
    }
    let mut elems: Vec<u32> = Vec::new();
    let mut off: usize = VECTOR_BODY_LEN;
    proof {
        assert(payload@.skip(VECTOR_BODY_LEN as int).skip(0) =~= payload@.skip(
            VECTOR_BODY_LEN as int,
        ));
    }
    while off < payload.len()
        invariant
            VECTOR_BODY_LEN <= off <= payload@.len(),
            (off - VECTOR_BODY_LEN) % 4 == 0,
            (payload@.len() - VECTOR_BODY_LEN) % 4 == 0,
            spec_elems_of_bytes(payload@.skip(VECTOR_BODY_LEN as int)) == elems@
                + spec_elems_of_bytes(payload@.skip(off as int)),
        decreases payload@.len() - off,
    {
        proof {
            assert(payload@.len() - off >= 4) by {
                assert((payload@.len() - off) % 4 == 0);
            }
        }
        let e = u32_from_le_bytes(slice_subrange(payload.as_slice(), off, off + 4));
        proof {
            assert(payload@.skip(off as int).take(4) =~= payload@.subrange(
                off as int,
                off as int + 4,
            ));
            assert(payload@.skip(off as int).skip(4) =~= payload@.skip(off as int + 4));
            assert(elems@.push(e) + spec_elems_of_bytes(payload@.skip(off as int + 4)) =~= elems@
                + spec_elems_of_bytes(payload@.skip(off as int)));
        }
        elems.push(e);
        off = off + 4;
    }
    proof {
        assert(spec_elems_of_bytes(payload@.skip(off as int)) =~= Seq::<u32>::empty());
        assert(elems@ =~= spec_elems_of_bytes(payload@.skip(VECTOR_BODY_LEN as int)));
    }
    Some(elems)
}

/// A head: a write cursor over a growing byte buffer. It reserves space for a
/// record header, appends payload bytes, and finalizes the record by
/// back-patching the reserved size field once all payload bytes are known.
///
/// At most one record is under construction at a time: `begin_record` demands
/// that no other record is open, so a nested writer must fully complete before
/// its parent continues.
pub struct SpaceHead {
    buf: Vec<u8>,
    active: Option<(usize, u32)>,
}

impl SpaceHead {
    /// Every byte written so far.
    pub closed spec fn bytes(&self) -> Seq<u8> {
        self.buf@
    }

    /// The offset and type tag of the record under construction, if one is
    /// open.
    pub closed spec fn active_header(&self) -> Option<(int, u32)> {
        match self.active {
            Some((h, ty)) => Some(((h as int), ty)),
            None => None,
        }
    }

    /// True while a record is under construction.
    pub open spec fn is_active(&self) -> bool {
        self.active_header() is Some
    }

    pub closed spec fn wf(&self) -> bool {
        match self.active {
            Some((h, ty)) => {
                &&& h + HEADER_LEN <= self.buf@.len()
                &&& self.buf@.subrange(h as int, h as int + 4) == spec_u32_to_le_bytes(ty)
            },
            None => true,
        }
    }

    /// A fresh head over an empty buffer.
    pub fn new() -> (r: SpaceHead)
        ensures
            r.wf(),
            !r.is_active(),
            r.bytes() == Seq::<u8>::empty(),
    {
        SpaceHead { buf: Vec::new(), active: None }
    }

    /// Reserves a record header for type tag `ty`: the type is written at
    /// once, the size field is held at zero until `end_record` patches it.
    pub fn begin_record(&mut self, ty: u32)
        requires
            old(self).wf(),
            !old(self).is_active(),
        ensures
            final(self).wf(),
            final(self).active_header() == Some((old(self).bytes().len() as int, ty)),
            final(self).bytes() == old(self).bytes() + spec_u32_to_le_bytes(ty)
                + spec_u32_to_le_bytes(0),
    {
        let h = self.buf.len();
        let mut ty_bytes = u32_to_le_bytes(ty);
        let mut size_bytes = u32_to_le_bytes(0);
        self.buf.append(&mut ty_bytes);
        self.buf.append(&mut size_bytes);
        self.active = Some((h, ty));
        proof {
            assert(self.buf@.subrange(h as int, h as int + 4) =~= spec_u32_to_le_bytes(ty));
        }
    }

    /// Appends raw payload bytes to the open record.
    pub fn append_bytes(&mut self, data: &[u8])
        requires
            old(self).wf(),
            old(self).is_active(),
        ensures
            final(self).wf(),
            final(self).active_header() == old(self).active_header(),
            final(self).bytes() == old(self).bytes() + data@,
    {
        self.buf.extend_from_slice(data);
        proof {
            let (h, ty) = self.active_header()->Some_0;
            assert(self.buf@.subrange(h, h + 4) =~= old(self).buf@.subrange(h, h + 4));
        }
    }

    /// Finalizes the open record by back-patching the reserved size field
    /// with the number of payload bytes appended since `begin_record`. The
    /// buffer then ends in a complete Atom Record whose payload is exactly
    /// what was appended.
    pub fn end_record(&mut self)
        requires
            old(self).wf(),
            old(self).is_active(),
            old(self).bytes().len() - old(self).active_header()->Some_0.0 - HEADER_LEN
                <= u32::MAX,
        ensures
            final(self).wf(),
            !final(self).is_active(),
            ({
                let (h, ty) = old(self).active_header()->Some_0;
                final(self).bytes() == old(self).bytes().take(h) + spec_record(
                    ty,
                    old(self).bytes().skip(h + HEADER_LEN),
                )
            }),
    {
        let (h, ty) = match self.active {
            Some(pair) => pair,
            None => {
                proof {
                    assert(false);
                }
                (0, 0)
            },
        };
        let size = self.buf.len() - h - HEADER_LEN;
        let size_bytes = u32_to_le_bytes(size as u32);
        write_bytes_at(&mut self.buf, h + 4, size_bytes.as_slice());
        self.active = None;
        proof {
            let payload = old(self).buf@.skip(h + HEADER_LEN);
            assert(self.buf@ =~= old(self).buf@.take(h as int) + spec_record(ty, payload));
        }
    }

    /// An open record's header lies within the buffer.
    pub proof fn lemma_active_in_bounds(&self)
        requires
            self.wf(),
            self.is_active(),
        ensures
            0 <= self.active_header()->Some_0.0,
            self.active_header()->Some_0.0 + HEADER_LEN <= self.bytes().len(),
    {
    }

    /// The buffer written so far.
    pub fn data(&self) -> (r: &Vec<u8>)
        ensures
            r@ == self.bytes(),
    {
        &self.buf
    }

    /// True while a record is under construction.
    pub fn is_open(&self) -> (r: bool)
        ensures
            r == self.is_active(),
    {
        self.active.is_some()
    }

    /// Writes one complete integer Atom Record.
    pub fn write_int_record(&mut self, ty: u32, value: i32)
        requires
            old(self).wf(),
            !old(self).is_active(),
        ensures
            final(self).wf(),
            !final(self).is_active(),
            final(self).bytes() == old(self).bytes() + spec_int_record(ty, value),
    {
        let bits = #[verifier::truncate] (value as u32);
        self.write_float_record(ty, bits);
    }

    /// Writes one complete float Atom Record carrying the given bit pattern.
    pub fn write_float_record(&mut self, ty: u32, bits: u32)
        requires
            old(self).wf(),
            !old(self).is_active(),
        ensures
            final(self).wf(),
            !final(self).is_active(),
            final(self).bytes() == old(self).bytes() + spec_float_record(ty, bits),
    {
        let h = Ghost(self.bytes().len() as int);
        self.begin_record(ty);
        let payload = u32_to_le_bytes(bits);
        self.append_bytes(payload.as_slice());
        proof {
            lemma_auto_spec_u32_to_from_le_bytes();
            assert(self.bytes().len() - h@ - HEADER_LEN == 4);
        }
        self.end_record();
        proof {
            assert(self.bytes().take(h@) =~= old(self).bytes());
            assert(final(self).bytes() =~= old(self).bytes() + spec_float_record(ty, bits));
        }
    }

    /// Reserves a vector Atom Record and writes the vector payload's own
    /// header: the element size and the element type tag. Elements are then
    /// appended with `append_vector_elems`, and `end_record` completes the
    /// record.
    pub fn begin_vector_record(&mut self, ty: u32, child_ty: u32)
        requires
            old(self).wf(),
            !old(self).is_active(),
        ensures
            final(self).wf(),
            final(self).active_header() == Some((old(self).bytes().len() as int, ty)),
            final(self).bytes() == old(self).bytes() + spec_u32_to_le_bytes(ty)
                + spec_u32_to_le_bytes(0) + spec_u32_to_le_bytes(VECTOR_CHILD_SIZE)
                + spec_u32_to_le_bytes(child_ty),
    {
        self.begin_record(ty);
        let child_size_bytes = u32_to_le_bytes(VECTOR_CHILD_SIZE);
        self.append_bytes(child_size_bytes.as_slice());
        let child_ty_bytes = u32_to_le_bytes(child_ty);
        self.append_bytes(child_ty_bytes.as_slice());
    }

    /// Appends a run of four-byte elements to the open record.
    pub fn append_vector_elems(&mut self, elems: &[u32])
        requires
            old(self).wf(),
            old(self).is_active(),
        ensures
            final(self).wf(),
            final(self).active_header() == old(self).active_header(),
            final(self).bytes() == old(self).bytes() + spec_elems_bytes(elems@),
    {
        let mut i: usize = 0;
        proof {
            assert(elems@.take(0) =~= Seq::<u32>::empty());
            assert(self.bytes() =~= old(self).bytes() + spec_elems_bytes(elems@.take(0)));
        }
        while i < elems.len()
            invariant
                i <= elems@.len(),
                self.wf(),
                self.is_active(),
                self.active_header() == old(self).active_header(),
                self.bytes() == old(self).bytes() + spec_elems_bytes(elems@.take(i as int)),
            decreases elems@.len() - i,
        {
            let e = *slice_index_get(elems, i);
            let e_bytes = u32_to_le_bytes(e);
            self.append_bytes(e_bytes.as_slice());
            proof {
                assert(elems@.take(i + 1) =~= elems@.take(i as int).push(e));
                lemma_elems_bytes_push(elems@.take(i as int), e);
                assert(self.bytes() =~= old(self).bytes() + spec_elems_bytes(
                    elems@.take(i + 1),
                ));
            }
            i = i + 1;
        }
        proof {
            assert(elems@.take(elems@.len() as int) =~= elems@);
        }
    }
}

/// A read-only view of one Atom Record whose bytes have not yet been checked
/// against an expected Value Type. Each typed read validates the declared type
/// tag before interpreting the payload and reports a decode failure otherwise.
pub struct UnidentifiedAtom {
    bytes: Vec<u8>,
}

impl UnidentifiedAtom {
    /// The record's bytes.
    pub closed spec fn bytes(&self) -> Seq<u8> {
        self.bytes@
    }

    /// Wraps record bytes for later typed reads.
    pub fn new(bytes: Vec<u8>) -> (r: UnidentifiedAtom)
        ensures
            r.bytes() == bytes@,
    {
        UnidentifiedAtom { bytes }
    }

    /// The record's bytes, for nested readers.
    pub fn data(&self) -> (r: &Vec<u8>)
        ensures
            r@ == self.bytes(),
    {
        &self.bytes
    }

    /// Reads the record as an integer atom of the expected type.
    pub fn read_int(&self, expected_ty: Urid) -> (r: Option<i32>)
        ensures
            r == spec_read_int(self.bytes(), expected_ty.spec_get()),
    {
        read_int_record(self.bytes.as_slice(), expected_ty.get())
    }

    /// Reads the record as a float atom of the expected type, yielding the
    /// value's bit pattern.
    pub fn read_float_bits(&self, expected_ty: Urid) -> (r: Option<u32>)
        ensures
            r == spec_read_float_bits(self.bytes(), expected_ty.spec_get()),
    {
        read_float_record(self.bytes.as_slice(), expected_ty.get())
    }

    /// Reads the record as a vector atom of the expected type and element
    /// type.
    pub fn read_vector(&self, expected_ty: Urid, expected_child: Urid) -> (r: Option<Vec<u32>>)
        ensures
            match r {
                Some(elems) => spec_read_vector(
                    self.bytes(),
                    expected_ty.spec_get(),
                    expected_child.spec_get(),
                ) == Some(elems@),
                None => spec_read_vector(
                    self.bytes(),
                    expected_ty.spec_get(),
                    expected_child.spec_get(),
                ) is None,
            },
    {
        read_vector_record(self.bytes.as_slice(), expected_ty.get(), expected_child.get())
    }
}

} // verus!
