//! The device-info record: a Fletcher-16 checksum, a payload length and a
//! payload of fields, each an id, a length and that many bytes. The only
//! field defined is the device id, a UTF-8 string.

use vstd::prelude::*;
use vstd::string::StringSliceAdditionalSpecFns;
use vstd::utf8::{valid_utf8, encode_utf8};
use crate::bytes::{copy_into, read_u16_le, spec_splice, spec_u16_bytes, spec_u16_le, write_u16_le};

verus! {

/// Why a record or a field could not be read.
#[derive(Clone, Copy, Debug, PartialEq, Eq, Structural)]
pub enum Error {
    NotEnoughBytes,
    InvalidChecksum,
    UnrecognizedId,
}

/// The sum of the bytes of `data`.
pub open spec fn spec_byte_sum(data: Seq<u8>) -> nat
    decreases data.len(),
{
    if data.len() == 0 {
        0
    } else {
        spec_byte_sum(data.drop_last()) + data.last() as nat
    }
}

/// The sum, over every prefix of `data`, of the bytes of that prefix.
pub open spec fn spec_running_sum(data: Seq<u8>) -> nat
    decreases data.len(),
{
    if data.len() == 0 {
        0
    } else {
        spec_running_sum(data.drop_last()) + spec_byte_sum(data)
    }
}

/// The Fletcher-16 checksum of `data`: the running sum modulo 255 in the
/// high byte, the byte sum modulo 255 in the low byte.
pub open spec fn fletcher16(data: Seq<u8>) -> u16 {
    ((spec_running_sum(data) % 255) * 256 + spec_byte_sum(data) % 255) as u16
}

/// `fletcher::calc_fletcher16`: the Fletcher-16 checksum of `data`. The
/// crate adds the bytes into two 16-bit accumulators, folds them back
/// below 511 every 21 bytes (which keeps them from overflowing and keeps
/// them congruent modulo 255) and folds once more at the end, which leaves
/// each sum modulo 255.
#[verifier::external_body]
fn checksum(data: &[u8]) -> (r: u16)
    ensures
        r == fletcher16(data@),
{
    fletcher::calc_fletcher16(data)
}

/// `core::str::from_utf8`: the bytes as a string slice when they are valid
/// UTF-8, whose bytes are then exactly `bytes`.
#[verifier::external_body]
pub(crate) fn str_from_utf8(bytes: &[u8]) -> (r: Option<&str>)
    ensures
        r is Some <==> valid_utf8(bytes@),
        r matches Some(s) ==> s.spec_bytes() == bytes@,
{
    core::str::from_utf8(bytes).ok()
}

/// The payload length stored in a record.
pub open spec fn spec_payload_len(s: Seq<u8>) -> int {
    spec_u16_le(s, 2) as int
}

/// Why `s` is not a record, if it is not: too short for its header or for
/// the payload length it states, or its checksum does not match.
pub open spec fn spec_record_error(s: Seq<u8>) -> Option<Error> {
    if s.len() < 4 || s.len() < 4 + spec_payload_len(s) {
        Some(Error::NotEnoughBytes)
    } else if spec_u16_le(s, 0) != fletcher16(s.subrange(2, 4 + spec_payload_len(s))) {
        Some(Error::InvalidChecksum)
    } else {
        None
    }
}

/// The length of the field at the start of `s`, if `s` holds one whole.
pub open spec fn spec_field_len(s: Seq<u8>) -> Option<nat> {
    if s.len() >= 4 && s.len() >= 4 + spec_u16_le(s, 2) {
        Some((4 + spec_u16_le(s, 2)) as nat)
    } else {
        None
    }
}

/// The first device id field of a run of fields, and the fields after it;
/// fields with other ids are skipped, and a field cut short ends the run.
pub open spec fn spec_next_device_id(s: Seq<u8>) -> Option<(Seq<u8>, Seq<u8>)>
    decreases s.len(),
{
    match spec_field_len(s) {
        Some(n) => if spec_u16_le(s, 0) == 0 {
            Some((s.take(n as int), s.skip(n as int)))
        } else {
            spec_next_device_id(s.skip(n as int))
        },
        None => None,
    }
}

/// A checked record.
pub struct DeviceInfo<'a> {
    payload_len: usize,
    inner: &'a [u8],
}

impl<'a> DeviceInfo<'a> {
    #[verifier::type_invariant]
    closed spec fn wf(self) -> bool {
        &&& spec_record_error(self.inner@) is None
        &&& self.payload_len == spec_payload_len(self.inner@)
    }

    /// The bytes the record was read from.
    pub closed spec fn bytes(&self) -> Seq<u8> {
        self.inner@
    }

    /// The record's payload.
    pub open spec fn payload(&self) -> Seq<u8> {
        self.bytes().subrange(4, 4 + spec_payload_len(self.bytes()))
    }

    /// Reads a record, checking its length and checksum.
    pub fn try_parse(inner: &'a [u8]) -> (r: Result<Self, Error>)
        ensures
            match r {
                Ok(info) => spec_record_error(inner@) is None && info.bytes() == inner@,
                Err(e) => spec_record_error(inner@) == Some(e),
            },
    {
        if inner.len() >= 4 {
            let payload_len = read_u16_le(inner, 2) as usize;
            if inner.len() >= 4 + payload_len {
                let data_sum = read_u16_le(inner, 0);
                let calc_sum = checksum(vstd::slice::slice_subrange(inner, 2, 4 + payload_len));
                if data_sum == calc_sum {
                    Ok(Self { payload_len, inner })
                } else {
                    Err(Error::InvalidChecksum)
                }
            } else {
                Err(Error::NotEnoughBytes)
            }
        } else {
            Err(Error::NotEnoughBytes)
        }
    }

    pub fn get_payload(&self) -> (r: &'a [u8])
        ensures
            r@ == self.payload(),
    {
        proof {
            use_type_invariant(self);
        }
        vstd::slice::slice_subrange(self.inner, 4, 4 + self.payload_len)
    }

    /// The fields of the payload.
    pub fn get_fields(&self) -> (r: FieldIter<'a>)
        ensures
            r.rest() == self.payload(),
    {
        FieldIter { inner: self.get_payload() }
    }
}

/// Walks the fields of a payload, yielding the recognized ones.
pub struct FieldIter<'a> {
    inner: &'a [u8],
}

impl<'a> FieldIter<'a> {
    /// The fields not yet walked.
    pub closed spec fn rest(&self) -> Seq<u8> {
        self.inner@
    }

    /// The next recognized field; unrecognized ones are skipped, and the
    /// walk ends at a field that is cut short.
    pub fn next(&mut self) -> (r: Option<DeviceInfoField<'a>>)
        ensures
            match spec_next_device_id(old(self).rest()) {
                Some((f, rest)) => r matches Some(DeviceInfoField::DeviceId(d)) && d.field_bytes() == f
                    && final(self).rest() == rest,
                None => r is None,
            },
    {
        loop
            invariant
                spec_next_device_id(self.inner@) == spec_next_device_id(old(self).rest()),
            decreases self.inner@.len(),
        {
            let field = match Field::try_parse(self.inner) {
                Ok(f) => f,
                Err(_) => {
                    return None;
                },
            };
            let n = field.get_len();
            let ghost s = self.inner@;
            self.inner = vstd::slice::slice_subrange(self.inner, n, self.inner.len());
            proof {
                assert(self.inner@ =~= s.skip(n as int));
            }
            match DeviceInfoField::try_from(field) {
                Ok(f) => {
                    return Some(f);
                },
                Err(_) => {},
            }
        }
    }
}

/// A field of a recognized kind.
pub enum DeviceInfoField<'a> {
    DeviceId(DeviceId<'a>),
}

impl<'a> DeviceInfoField<'a> {
    /// The field as a recognized one; `UnrecognizedId` for an id that is
    /// not defined.
    pub fn try_from(value: Field<'a>) -> (r: Result<Self, Error>)
        ensures
            match r {
                Ok(DeviceInfoField::DeviceId(d)) => value.id() == 0 && d.field_bytes() == value.bytes(),
                Err(e) => value.id() != 0 && e == Error::UnrecognizedId,
            },
    {
        if value.get_id() == 0 {
            Ok(DeviceInfoField::DeviceId(DeviceId::try_from(value)))
        } else {
            Err(Error::UnrecognizedId)
        }
    }
}

/// One field: an id, a length and that many bytes.
pub struct Field<'a> {
    len: usize,
    inner: &'a [u8],
}

impl<'a> Field<'a> {
    #[verifier::type_invariant]
    closed spec fn wf(self) -> bool {
        &&& self.inner@.len() >= 4
        &&& self.len == spec_u16_le(self.inner@, 2)
        &&& self.inner@.len() >= 4 + self.len
    }

    /// The bytes of the field: its header and its data.
    pub closed spec fn bytes(&self) -> Seq<u8> {
        self.inner@.take(4 + spec_u16_le(self.inner@, 2))
    }

    pub open spec fn id(&self) -> u16 {
        spec_u16_le(self.bytes(), 0)
    }

    /// The field's data bytes.
    pub open spec fn payload(&self) -> Seq<u8> {
        self.bytes().skip(4)
    }

    /// Reads the field at the start of `inner`.
    pub fn try_parse(inner: &'a [u8]) -> (r: Result<Self, Error>)
        ensures
            match r {
                Ok(f) => spec_field_len(inner@) is Some && f.bytes() == inner@.take(spec_field_len(inner@)->0 as int),
                Err(e) => spec_field_len(inner@) is None && e == Error::NotEnoughBytes,
            },
    {
        if inner.len() >= 4 {
            let len = read_u16_le(inner, 2) as usize;
            if inner.len() >= 4 + len {
                Ok(Self { len, inner })
            } else {
                Err(Error::NotEnoughBytes)
            }
        } else {
            Err(Error::NotEnoughBytes)
        }
    }

    pub fn get_id(&self) -> (r: u16)
        ensures
            r == self.id(),
    {
        proof {
            use_type_invariant(self);
        }
        read_u16_le(self.inner, 0)
    }

    pub fn get_payload(&self) -> (r: &'a [u8])
        ensures
            r@ == self.payload(),
    {
        proof {
            use_type_invariant(self);
        }
        let r = vstd::slice::slice_subrange(self.inner, 4, 4 + self.len);
        assert(r@ =~= self.payload());
        r
    }

    /// The length of the whole field.
    pub fn get_len(&self) -> (r: usize)
        ensures
            r == self.bytes().len(),
            r >= 4,
    {
        proof {
            use_type_invariant(self);
        }
        4 + self.len
    }
}

/// The device id field.
pub struct DeviceId<'a> {
    inner: Field<'a>,
}

impl<'a> DeviceId<'a> {
    /// The bytes of the whole field.
    pub closed spec fn field_bytes(&self) -> Seq<u8> {
        self.inner.bytes()
    }

    /// The id as it is stored: the field's data bytes.
    pub open spec fn id_bytes(&self) -> Seq<u8> {
        self.field_bytes().skip(4)
    }

    /// The field as a device id; it must have the device id's id.
    pub fn try_from(inner: Field<'a>) -> (r: Self)
        requires
            inner.id() == 0,
        ensures
            r.field_bytes() == inner.bytes(),
    {
        Self { inner }
    }

    /// The device id, if its bytes are valid UTF-8.
    pub fn try_get(&self) -> (r: Option<&'a str>)
        ensures
            r is Some <==> valid_utf8(self.id_bytes()),
            r matches Some(s) ==> s.spec_bytes() == self.id_bytes(),
    {
        str_from_utf8(self.inner.get_payload())
    }
}

/// The payload of a record: its fields, back to back.
pub open spec fn spec_device_id_field(id: Seq<u8>) -> Seq<u8> {
    spec_u16_bytes(0) + spec_u16_bytes(id.len() as u16) + id
}

/// Builds a record into a buffer: fields are added one after the other,
/// and commit writes the length and the checksum.
pub struct DeviceInfoBuilder<'a> {
    pub payload_len: usize,
    pub inner: &'a mut [u8],
    /// The device ids added so far, in order.
    pub ids: Ghost<Seq<Seq<u8>>>,
}

/// The record that a builder holding `payload` commits in `buf`.
pub open spec fn spec_committed(buf: Seq<u8>, payload: Seq<u8>) -> Seq<u8> {
    let with_len = spec_splice(buf, 2, spec_u16_bytes(payload.len() as u16));
    spec_splice(with_len, 0, spec_u16_bytes(fletcher16(with_len.subrange(2, 4 + payload.len() as int))))
}

impl<'a> DeviceInfoBuilder<'a> {
    /// The payload written so far.
    pub open spec fn payload(&self) -> Seq<u8> {
        self.inner@.subrange(4, 4 + self.payload_len)
    }

    pub open spec fn wf(&self) -> bool {
        &&& 4 + self.payload_len <= self.inner@.len()
        &&& self.payload() == spec_device_id_fields(self.ids@)
        &&& forall|i: int| 0 <= i < self.ids@.len() ==> #[trigger] self.ids@[i].len() + 4 <= self.payload_len
    }

    /// A builder with an empty payload; the buffer must hold the header.
    pub fn try_alloc(inner: &'a mut [u8]) -> (r: Result<Self, Error>)
        ensures
            match r {
                Ok(b) => old(inner)@.len() >= 4 && b.wf() && b.payload_len == 0 && b.ids@ == Seq::<Seq<u8>>::empty()
                    && b.inner@ == old(inner)@ && final(b.inner)@ == final(inner)@,
                Err(e) => old(inner)@.len() < 4 && e == Error::NotEnoughBytes && final(inner)@ == old(inner)@,
            },
    {
        if inner.len() >= 4 {
            let b = Self { payload_len: 0, inner, ids: Ghost(Seq::empty()) };
            assert(b.payload() =~= spec_device_id_fields(b.ids@));
            Ok(b)
        } else {
            Err(Error::NotEnoughBytes)
        }
    }

    /// Adds a device id field, if the buffer has room for it; the bytes
    /// after the new field are left as they were.
    pub fn add_device_id(&mut self, value: &str) -> (r: bool)
        requires
            old(self).wf(),
        ensures
            final(self).wf(),
            final(self).inner@.len() == old(self).inner@.len(),
            r == (old(self).inner@.len() - 4 - old(self).payload_len >= 4 + value.spec_bytes().len()),
            r ==> final(self).payload() == old(self).payload() + spec_device_id_field(value.spec_bytes()),
            r ==> final(self).payload_len == old(self).payload_len + 4 + value.spec_bytes().len(),
            r ==> final(self).ids@ == old(self).ids@.push(value.spec_bytes()),
            r ==> final(self).inner@ == spec_splice(
                old(self).inner@,
                4 + old(self).payload_len,
                spec_device_id_field(value.spec_bytes()),
            ),
            !r ==> *final(self) == *old(self),
            final(final(self).inner)@ == final(old(self).inner)@,
    {
        let bytes = value.as_bytes();
        let len = self.inner.len();
        let at = 4 + self.payload_len;
        if len - at >= 4 && len - at - 4 >= bytes.len() {
            let ghost b0 = self.inner@;
            write_u16_le(self.inner, at, 0);
            write_u16_le(self.inner, at + 2, #[verifier::truncate] (bytes.len() as u16));
            copy_into(self.inner, at + 4, bytes);
            self.payload_len = self.payload_len + 4 + bytes.len();
            proof {
                assert(self.inner@ =~= spec_splice(b0, at as int, spec_device_id_field(bytes@)));
                assert(self.payload() =~= b0.subrange(4, at as int) + spec_device_id_field(bytes@));
                let ids0 = self.ids@;
                lemma_device_id_fields_push(ids0, bytes@);
                self.ids = Ghost(ids0.push(bytes@));
                assert forall|i: int| 0 <= i < self.ids@.len() implies #[trigger] self.ids@[i].len() + 4
                    <= self.payload_len by {
                    if i < ids0.len() {
                        assert(self.ids@[i] == ids0[i]);
                    }
                }
            }
            true
        } else {
            false
        }
    }

    /// Writes the payload length (its low 16 bits) and the checksum; returns
    /// the record's size. A record whose payload fits the length field reads
    /// back with the device ids added, in order.
    pub fn commit(self) -> (r: usize)
        requires
            self.wf(),
        ensures
            r == 4 + self.payload_len,
            final(self.inner)@ == spec_committed(old(self.inner)@, self.payload()),
            self.payload_len <= 0xFFFF ==> ({
                let rec = final(self.inner)@.take(r as int);
                &&& spec_record_error(rec) is None
                &&& spec_walk_device_ids(rec.subrange(4, 4 + spec_payload_len(rec))) == self.ids@
            }),
    {
        let DeviceInfoBuilder { payload_len, inner, ids: _ } = self;
        let ghost b0 = inner@;
        let _len = inner.len();
        write_u16_le(inner, 2, #[verifier::truncate] (payload_len as u16));
        let sum = checksum(vstd::slice::slice_subrange(inner, 2, 4 + payload_len));
        write_u16_le(inner, 0, sum);
        proof {
            assert(b0.subrange(4, 4 + payload_len as int).len() == payload_len);
            if payload_len <= 0xFFFF {
                lemma_commit_parse(b0, self.payload());
                assert forall|i: int| 0 <= i < self.ids@.len() implies #[trigger] self.ids@[i].len() <= 0xFFFF by {}
                lemma_device_ids_roundtrip(self.ids@);
            }
        }
        4 + payload_len
    }
}

/// A committed record reads back: it parses, and its payload is the one
/// that was built.
pub proof fn lemma_commit_parse(buf: Seq<u8>, payload: Seq<u8>)
    requires
        buf.len() >= 4 + payload.len(),
        payload.len() <= 0xFFFF,
        buf.subrange(4, 4 + payload.len() as int) == payload,
    ensures
        ({
            let rec = spec_committed(buf, payload).take(4 + payload.len() as int);
            &&& spec_record_error(rec) is None
            &&& rec.subrange(4, 4 + spec_payload_len(rec) as int) == payload
        }),
{
    let with_len = spec_splice(buf, 2, spec_u16_bytes(payload.len() as u16));
    let sum = fletcher16(with_len.subrange(2, 4 + payload.len() as int));
    let c = spec_committed(buf, payload);
    let rec = c.take(4 + payload.len() as int);
    crate::bytes::lemma_u16_roundtrip(with_len, 2, payload.len() as u16);
    crate::bytes::lemma_u16_roundtrip(c, 0, sum);
    assert(spec_u16_le(rec, 2) == spec_u16_le(with_len, 2));
    assert(rec.subrange(2, 4 + payload.len() as int) =~= with_len.subrange(2, 4 + payload.len() as int));
    assert(rec.subrange(4, 4 + payload.len() as int) =~= payload);
}

/// A device id field walked from a payload gives the id back: the id's
/// bytes are valid UTF-8 and decode to the same string.
pub proof fn lemma_device_id_roundtrip(id: &str, rest: Seq<u8>)
    requires
        id.spec_bytes().len() <= 0xFFFF,
    ensures
        ({
            let s = spec_device_id_field(id.spec_bytes()) + rest;
            &&& spec_next_device_id(s) == Some((spec_device_id_field(id.spec_bytes()), rest))
            &&& valid_utf8(spec_device_id_field(id.spec_bytes()).skip(4))
            &&& spec_device_id_field(id.spec_bytes()).skip(4) == id.spec_bytes()
        }),
{
    let b = id.spec_bytes();
    let f = spec_device_id_field(b);
    let s = f + rest;
    let n = b.len() as u16;
    assert(s[0] == 0 && s[1] == 0);
    assert(s[2] == (n % 256) as u8 && s[3] == (n / 256) as u8);
    assert(spec_u16_le(s, 2) == n);
    assert(s.take(f.len() as int) =~= f);
    assert(s.skip(f.len() as int) =~= rest);
    assert(f.skip(4) =~= b);
    vstd::utf8::encode_utf8_valid_utf8(id@);
}


/// The payload made of one device id field per id of `ids`, in order.
pub open spec fn spec_device_id_fields(ids: Seq<Seq<u8>>) -> Seq<u8>
    decreases ids.len(),
{
    if ids.len() == 0 {
        Seq::empty()
    } else {
        spec_device_id_field(ids[0]) + spec_device_id_fields(ids.drop_first())
    }
}

/// The device ids found by walking the fields of `s` from the start, in
/// order: each device id field's data, other fields skipped.
pub open spec fn spec_walk_device_ids(s: Seq<u8>) -> Seq<Seq<u8>>
    decreases s.len(),
{
    match spec_next_device_id(s) {
        Some((f, rest)) => if rest.len() < s.len() {
            seq![f.skip(4)] + spec_walk_device_ids(rest)
        } else {
            Seq::empty()
        },
        None => Seq::empty(),
    }
}

/// One device id field, with anything after it, is walked as that field
/// and what follows.
proof fn lemma_field_walk(b: Seq<u8>, rest: Seq<u8>)
    requires
        b.len() <= 0xFFFF,
    ensures
        spec_next_device_id(spec_device_id_field(b) + rest) == Some((spec_device_id_field(b), rest)),
        spec_device_id_field(b).skip(4) == b,
{
    let f = spec_device_id_field(b);
    let s = f + rest;
    let n = b.len() as u16;
    assert(s[0] == 0 && s[1] == 0);
    assert(s[2] == (n % 256) as u8 && s[3] == (n / 256) as u8);
    assert(spec_u16_le(s, 2) == n);
    assert(s.take(f.len() as int) =~= f);
    assert(s.skip(f.len() as int) =~= rest);
    assert(f.skip(4) =~= b);
}

/// Adding a device id field after the fields of `ids` gives the fields of
/// `ids` with the new id last.
pub proof fn lemma_device_id_fields_push(ids: Seq<Seq<u8>>, id: Seq<u8>)
    ensures
        spec_device_id_fields(ids.push(id)) == spec_device_id_fields(ids) + spec_device_id_field(id),
    decreases ids.len(),
{
    if ids.len() == 0 {
        assert(ids.push(id).drop_first() =~= Seq::<Seq<u8>>::empty());
        assert(spec_device_id_fields(Seq::<Seq<u8>>::empty()) =~= Seq::<u8>::empty());
        assert(spec_device_id_fields(ids.push(id)) =~= spec_device_id_field(id) + Seq::<u8>::empty());
        assert(spec_device_id_fields(ids) =~= Seq::<u8>::empty());
        assert(spec_device_id_field(id) + Seq::<u8>::empty() =~= Seq::<u8>::empty() + spec_device_id_field(id));
    } else {
        lemma_device_id_fields_push(ids.drop_first(), id);
        assert(ids.push(id).drop_first() =~= ids.drop_first().push(id));
        assert(ids.push(id)[0] == ids[0]);
        let a = spec_device_id_field(ids[0]);
        let m = spec_device_id_fields(ids.drop_first());
        let z = spec_device_id_field(id);
        assert(a + (m + z) =~= (a + m) + z);
    }
}

/// A payload of device id fields walks back to its ids, all of them, in
/// the order they were added.
pub proof fn lemma_device_ids_roundtrip(ids: Seq<Seq<u8>>)
    requires
        forall|i: int| 0 <= i < ids.len() ==> #[trigger] ids[i].len() <= 0xFFFF,
    ensures
        spec_walk_device_ids(spec_device_id_fields(ids)) == ids,
    decreases ids.len(),
{
    if ids.len() > 0 {
        let tail = ids.drop_first();
        assert forall|i: int| 0 <= i < tail.len() implies #[trigger] tail[i].len() <= 0xFFFF by {
            assert(tail[i] == ids[i + 1]);
        }
        lemma_device_ids_roundtrip(tail);
        let b = ids[0];
        let rest = spec_device_id_fields(tail);
        lemma_field_walk(b, rest);
        let s = spec_device_id_fields(ids);
        assert(s == spec_device_id_field(b) + rest);
        assert(rest.len() < s.len());
        assert(spec_walk_device_ids(s) == seq![b] + spec_walk_device_ids(rest));
        assert(ids =~= seq![b] + tail);
    } else {
        assert(spec_device_id_fields(ids) =~= Seq::<u8>::empty());
        assert(spec_next_device_id(Seq::<u8>::empty()) is None);
    }
}

/// The payload that `generate` builds for `id`: the device id field, or
/// nothing when the field does not fit a 4096-byte record.
pub open spec fn spec_generated_payload(id: Seq<u8>) -> Seq<u8> {
    if 4 + id.len() <= 4092 {
        spec_device_id_field(id)
    } else {
        Seq::empty()
    }
}

/// A record, built in a zeroed 4096-byte buffer, holding the device id
/// `device_id`.
pub fn generate(device_id: &str) -> (r: Vec<u8>)
    ensures
        ({
            let p = spec_generated_payload(device_id.spec_bytes());
            let zeros = Seq::new(4096, |i: int| 0u8);
            r@ == spec_committed(spec_splice(zeros, 4, p), p).take(4 + p.len() as int)
        }),
{
    let mut buf: Vec<u8> = vec![0u8; 4096];
    let ghost zeros = buf@;
    let len = {
        let mut builder = match DeviceInfoBuilder::try_alloc(buf.as_mut_slice()) {
            Ok(b) => b,
            Err(_) => {
                return Vec::new();
            },
        };
        let added = builder.add_device_id(device_id);
        proof {
            let p = spec_generated_payload(device_id.spec_bytes());
            assert(zeros =~= Seq::new(4096, |i: int| 0u8));
            assert(builder.payload() =~= p);
            assert(builder.inner@ =~= spec_splice(zeros, 4, p));
        }
        builder.commit()
    };
    buf.truncate(len);
    buf
}

} // verus!
