//! The byte format that messages take on the wire.
//!
//! Integers, strings and identifiers are encoded and decoded by the `postcard`
//! crate; this module states the format of each of them, builds the format of
//! compound values by concatenation, and proves that whatever was encoded is
//! decoded to the same value.
use vstd::prelude::*;
use vstd::utf8::{decode_utf8, encode_utf8, valid_utf8};

verus! {

/// The errors of the `postcard` crate.
#[derive(Clone, Copy, Debug, PartialEq, Eq, Hash, Structural)]
pub enum PostcardError {
    /// The feature will never be implemented by the format.
    WontImplement,
    /// The feature is not implemented by the format yet.
    NotYetImplemented,
    /// The buffer to serialize into is too short.
    SerializeBufferFull,
    /// The length of a sequence must be known.
    SerializeSeqLengthUnknown,
    /// The input ended before the value did.
    DeserializeUnexpectedEnd,
    /// A variable length integer did not terminate, or is out of range.
    DeserializeBadVarint,
    /// A boolean was neither 0 nor 1.
    DeserializeBadBool,
    /// A character is not a unicode scalar value.
    DeserializeBadChar,
    /// A string is not valid UTF-8.
    DeserializeBadUtf8,
    /// The tag of an option was neither 0 nor 1.
    DeserializeBadOption,
    /// The discriminant of an enum is out of range.
    DeserializeBadEnum,
    /// The framing of the input is malformed.
    DeserializeBadEncoding,
    /// The checksum does not match.
    DeserializeBadCrc,
    /// An error raised by the value while it was serialized.
    SerdeSerCustom,
    /// An error raised by the value while it was deserialized.
    SerdeDeCustom,
    /// An error while a string was collected.
    CollectStrError,
}

// ---------------------------------------------------------------------------
// Variable length integers
// ---------------------------------------------------------------------------

/// The variable length encoding of `n`: groups of seven bits, the lowest first,
/// with the top bit set on each byte but the last.
pub open spec fn varint(n: nat) -> Seq<u8>
    decreases n,
{
    if n < 128 {
        seq![n as u8]
    } else {
        seq![(n % 128 + 128) as u8] + varint(n / 128)
    }
}

/// The largest integer that `k` groups of seven bits can hold where the last
/// of them is at most `last`.
pub open spec fn varint_cap(k: nat, last: nat) -> nat
    decreases k,
{
    if k <= 1 {
        last
    } else {
        128 * varint_cap((k - 1) as nat, last) + 127
    }
}

/// Takes a variable length integer of at most `k` bytes from the front of
/// `bytes`; the `k`-th byte may be at most `last`.
pub open spec fn take_varint(bytes: Seq<u8>, k: nat, last: nat) -> Result<
    (nat, Seq<u8>),
    PostcardError,
>
    decreases k,
{
    if k == 0 {
        Err(PostcardError::DeserializeBadVarint)
    } else if bytes.len() == 0 {
        Err(PostcardError::DeserializeUnexpectedEnd)
    } else if bytes[0] < 128 {
        if k == 1 && bytes[0] > last {
            Err(PostcardError::DeserializeBadVarint)
        } else {
            Ok((bytes[0] as nat, bytes.skip(1)))
        }
    } else {
        match take_varint(bytes.skip(1), (k - 1) as nat, last) {
            Ok((high, rest)) => Ok(((bytes[0] - 128 + 128 * high) as nat, rest)),
            Err(e) => Err(e),
        }
    }
}

/// The number of bytes that an integer of `bits` bits takes at most.
pub open spec fn varint_max(bits: nat) -> nat {
    (bits + 6) / 7
}

/// The largest value that the last byte of an integer of `bits` bits can have.
pub open spec fn max_of_last_byte(bits: nat) -> nat {
    (vstd::arithmetic::power2::pow2(bits % 7) - 1) as nat
}

/// Takes an integer of `bits` bits from the front of `bytes`.
pub open spec fn take_uint(bytes: Seq<u8>, bits: nat) -> Result<(nat, Seq<u8>), PostcardError> {
    take_varint(bytes, varint_max(bits), max_of_last_byte(bits))
}

/// Takes `n` bytes from the front of `bytes`.
pub open spec fn take_n(bytes: Seq<u8>, n: nat) -> Result<(Seq<u8>, Seq<u8>), PostcardError> {
    if bytes.len() < n {
        Err(PostcardError::DeserializeUnexpectedEnd)
    } else {
        Ok((bytes.take(n as int), bytes.skip(n as int)))
    }
}

/// Takes a length, and then as many bytes as it says, from the front of
/// `bytes`.
pub open spec fn take_counted(bytes: Seq<u8>) -> Result<(Seq<u8>, Seq<u8>), PostcardError> {
    match take_uint(bytes, usize::BITS as nat) {
        Ok((n, rest)) => take_n(rest, n),
        Err(e) => Err(e),
    }
}

/// Takes a string from the front of `bytes`.
pub open spec fn take_str(bytes: Seq<u8>) -> Result<(Seq<char>, Seq<u8>), PostcardError> {
    match take_counted(bytes) {
        Ok((s, rest)) => if valid_utf8(s) {
            Ok((decode_utf8(s), rest))
        } else {
            Err(PostcardError::DeserializeBadUtf8)
        },
        Err(e) => Err(e),
    }
}

/// The length of `s`, and then `s`.
pub open spec fn counted(s: Seq<u8>) -> Seq<u8> {
    varint(s.len()) + s
}

/// Signed integers alternate between the two signs: 0, -1, 1, -2, 2, ...
pub open spec fn zig_zag(n: int) -> nat {
    if n >= 0 {
        (2 * n) as nat
    } else {
        (-2 * n - 1) as nat
    }
}

/// The signed integer that stands at position `n` of [`zig_zag`].
pub open spec fn un_zig_zag(n: nat) -> int {
    if n % 2 == 0 {
        (n / 2) as int
    } else {
        -((n / 2) as int) - 1
    }
}

proof fn lemma_take_varint(n: nat, rest: Seq<u8>, k: nat, last: nat)
    requires
        k >= 1,
        last < 128,
        n <= varint_cap(k, last),
    ensures
        take_varint(varint(n) + rest, k, last) == Ok::<(nat, Seq<u8>), PostcardError>((n, rest)),
    decreases k,
{
    let bytes = varint(n) + rest;
    if n < 128 {
        assert(bytes.skip(1) =~= rest);
    } else {
        assert(bytes.skip(1) =~= varint(n / 128) + rest);
        lemma_take_varint(n / 128, rest, (k - 1) as nat, last);
    }
}

proof fn lemma_varint_caps()
    ensures
        varint_cap(varint_max(16), max_of_last_byte(16)) == u16::MAX,
        varint_cap(varint_max(32), max_of_last_byte(32)) == u32::MAX,
        varint_cap(varint_max(64), max_of_last_byte(64)) == u64::MAX,
        max_of_last_byte(16) == 3,
        max_of_last_byte(32) == 15,
        max_of_last_byte(64) == 1,
{
    vstd::arithmetic::power2::lemma2_to64();
    reveal_with_fuel(varint_cap, 10);
}

proof fn lemma_take_uint(n: nat, rest: Seq<u8>, bits: nat)
    requires
        bits == 16 && n <= u16::MAX || bits == 32 && n <= u32::MAX || bits == 64 && n <= u64::MAX,
    ensures
        take_uint(varint(n) + rest, bits) == Ok::<(nat, Seq<u8>), PostcardError>((n, rest)),
{
    lemma_varint_caps();
    lemma_take_varint(n, rest, varint_max(bits), max_of_last_byte(bits));
}

proof fn lemma_take_counted(s: Seq<u8>, rest: Seq<u8>)
    requires
        s.len() <= usize::MAX,
    ensures
        take_counted(counted(s) + rest) == Ok::<(Seq<u8>, Seq<u8>), PostcardError>((s, rest)),
{
    assert(counted(s) + rest =~= varint(s.len()) + (s + rest));
    lemma_take_uint(s.len(), s + rest, usize::BITS as nat);
    assert((s + rest).take(s.len() as int) =~= s);
    assert((s + rest).skip(s.len() as int) =~= rest);
}

// ---------------------------------------------------------------------------
// Calls into `postcard`
// ---------------------------------------------------------------------------

/// Calls `postcard::to_allocvec` on a `u8`: the byte itself.
#[verifier::external_body]
fn put_u8(v: u8) -> (r: Vec<u8>)
    ensures
        r@ == seq![v],
{
    postcard::to_allocvec(&v).unwrap()
}

/// Calls `postcard::to_allocvec` on a `u16`: its variable length encoding.
#[verifier::external_body]
fn put_u16(v: u16) -> (r: Vec<u8>)
    ensures
        r@ == varint(v as nat),
{
    postcard::to_allocvec(&v).unwrap()
}

/// Calls `postcard::to_allocvec` on a `u32`: its variable length encoding.
#[verifier::external_body]
fn put_u32(v: u32) -> (r: Vec<u8>)
    ensures
        r@ == varint(v as nat),
{
    postcard::to_allocvec(&v).unwrap()
}

/// Calls `postcard::to_allocvec` on a `u64`: its variable length encoding.
#[verifier::external_body]
fn put_u64(v: u64) -> (r: Vec<u8>)
    ensures
        r@ == varint(v as nat),
{
    postcard::to_allocvec(&v).unwrap()
}

/// Calls `postcard::to_allocvec` on an `i16`: the variable length encoding of
/// its zig-zag position.
#[verifier::external_body]
fn put_i16(v: i16) -> (r: Vec<u8>)
    ensures
        r@ == varint(zig_zag(v as int)),
{
    postcard::to_allocvec(&v).unwrap()
}

/// Calls `postcard::to_allocvec` on a `str`: the number of its UTF-8 bytes, and
/// then the bytes.
#[verifier::external_body]
fn put_str(v: &str) -> (r: Vec<u8>)
    ensures
        r@ == counted(encode_utf8(v@)),
{
    postcard::to_allocvec(v).unwrap()
}

/// Calls `postcard::to_allocvec` on a `[u8]`: the number of bytes, and then the
/// bytes.
#[verifier::external_body]
fn put_bytes(v: &[u8]) -> (r: Vec<u8>)
    ensures
        r@ == counted(v@),
{
    postcard::to_allocvec(v).unwrap()
}

/// Calls `postcard::to_allocvec` on a `uuid::Uuid`: the count 16, and then the
/// bytes of the identifier.
#[verifier::external_body]
fn put_uuid(v: [u8; 16]) -> (r: Vec<u8>)
    ensures
        r@ == counted(v@),
{
    postcard::to_allocvec(&uuid::Uuid::from_bytes(v)).unwrap()
}

/// Calls `postcard::take_from_bytes` for a `u8`: the first byte.
#[verifier::external_body]
fn take_u8(bytes: &[u8]) -> (r: Result<(u8, &[u8]), PostcardError>)
    ensures
        match r {
            Ok((v, rest)) => bytes@.len() > 0 && v == bytes@[0] && rest@ == bytes@.skip(1),
            Err(e) => bytes@.len() == 0 && e == PostcardError::DeserializeUnexpectedEnd,
        },
{
    match postcard::take_from_bytes::<u8>(bytes) {
        Ok(taken) => Ok(taken),
        Err(_) => Err(PostcardError::DeserializeUnexpectedEnd),
    }
}

/// Calls `postcard::take_from_bytes` for a `u16`: a variable length integer of
/// 16 bits.
#[verifier::external_body]
fn take_u16(bytes: &[u8]) -> (r: Result<(u16, &[u8]), PostcardError>)
    ensures
        match r {
            Ok((v, rest)) => take_uint(bytes@, 16) == Ok::<(nat, Seq<u8>), PostcardError>(
                (v as nat, rest@),
            ),
            Err(e) => take_uint(bytes@, 16) == Err::<(nat, Seq<u8>), PostcardError>(e),
        },
{
    match postcard::take_from_bytes::<u16>(bytes) {
        Ok(taken) => Ok(taken),
        Err(postcard::Error::DeserializeUnexpectedEnd) => Err(
            PostcardError::DeserializeUnexpectedEnd,
        ),
        Err(_) => Err(PostcardError::DeserializeBadVarint),
    }
}

/// Calls `postcard::take_from_bytes` for a `u32`: a variable length integer of
/// 32 bits.
#[verifier::external_body]
fn take_u32(bytes: &[u8]) -> (r: Result<(u32, &[u8]), PostcardError>)
    ensures
        match r {
            Ok((v, rest)) => take_uint(bytes@, 32) == Ok::<(nat, Seq<u8>), PostcardError>(
                (v as nat, rest@),
            ),
            Err(e) => take_uint(bytes@, 32) == Err::<(nat, Seq<u8>), PostcardError>(e),
        },
{
    match postcard::take_from_bytes::<u32>(bytes) {
        Ok(taken) => Ok(taken),
        Err(postcard::Error::DeserializeUnexpectedEnd) => Err(
            PostcardError::DeserializeUnexpectedEnd,
        ),
        Err(_) => Err(PostcardError::DeserializeBadVarint),
    }
}

/// Calls `postcard::take_from_bytes` for a `u64`: a variable length integer of
/// 64 bits.
#[verifier::external_body]
fn take_u64(bytes: &[u8]) -> (r: Result<(u64, &[u8]), PostcardError>)
    ensures
        match r {
            Ok((v, rest)) => take_uint(bytes@, 64) == Ok::<(nat, Seq<u8>), PostcardError>(
                (v as nat, rest@),
            ),
            Err(e) => take_uint(bytes@, 64) == Err::<(nat, Seq<u8>), PostcardError>(e),
        },
{
    match postcard::take_from_bytes::<u64>(bytes) {
        Ok(taken) => Ok(taken),
        Err(postcard::Error::DeserializeUnexpectedEnd) => Err(
            PostcardError::DeserializeUnexpectedEnd,
        ),
        Err(_) => Err(PostcardError::DeserializeBadVarint),
    }
}

/// Calls `postcard::take_from_bytes` for an `i16`: a variable length integer of
/// 16 bits, read as a zig-zag position.
#[verifier::external_body]
fn take_i16(bytes: &[u8]) -> (r: Result<(i16, &[u8]), PostcardError>)
    ensures
        match r {
            Ok((v, rest)) => take_uint(bytes@, 16) matches Ok(taken) && v as int == un_zig_zag(
                taken.0,
            ) && rest@ == taken.1,
            Err(e) => take_uint(bytes@, 16) == Err::<(nat, Seq<u8>), PostcardError>(e),
        },
{
    match postcard::take_from_bytes::<i16>(bytes) {
        Ok(taken) => Ok(taken),
        Err(postcard::Error::DeserializeUnexpectedEnd) => Err(
            PostcardError::DeserializeUnexpectedEnd,
        ),
        Err(_) => Err(PostcardError::DeserializeBadVarint),
    }
}

/// Calls `postcard::take_from_bytes` for a `String`: a counted run of UTF-8
/// bytes.
#[verifier::external_body]
fn take_string(bytes: &[u8]) -> (r: Result<(String, &[u8]), PostcardError>)
    ensures
        match r {
            Ok((v, rest)) => take_str(bytes@) == Ok::<(Seq<char>, Seq<u8>), PostcardError>(
                (v@, rest@),
            ),
            Err(e) => take_str(bytes@) == Err::<(Seq<char>, Seq<u8>), PostcardError>(e),
        },
{
    match postcard::take_from_bytes::<String>(bytes) {
        Ok(taken) => Ok(taken),
        Err(postcard::Error::DeserializeUnexpectedEnd) => Err(
            PostcardError::DeserializeUnexpectedEnd,
        ),
        Err(postcard::Error::DeserializeBadVarint) => Err(PostcardError::DeserializeBadVarint),
        Err(_) => Err(PostcardError::DeserializeBadUtf8),
    }
}

/// Calls `postcard::take_from_bytes` for a `&[u8]`: a counted run of bytes.
#[verifier::external_body]
fn take_slice(bytes: &[u8]) -> (r: Result<(&[u8], &[u8]), PostcardError>)
    ensures
        match r {
            Ok((v, rest)) => take_counted(bytes@) == Ok::<(Seq<u8>, Seq<u8>), PostcardError>(
                (v@, rest@),
            ),
            Err(e) => take_counted(bytes@) == Err::<(Seq<u8>, Seq<u8>), PostcardError>(e),
        },
{
    match postcard::take_from_bytes::<&[u8]>(bytes) {
        Ok(taken) => Ok(taken),
        Err(postcard::Error::DeserializeUnexpectedEnd) => Err(
            PostcardError::DeserializeUnexpectedEnd,
        ),
        Err(_) => Err(PostcardError::DeserializeBadVarint),
    }
}

/// Calls `postcard::take_from_bytes` for a `uuid::Uuid`: a counted run of
/// bytes, which has to be 16 bytes long.
#[verifier::external_body]
fn take_uuid(bytes: &[u8]) -> (r: Result<([u8; 16], &[u8]), PostcardError>)
    ensures
        match r {
            Ok((v, rest)) => take_counted(bytes@) == Ok::<(Seq<u8>, Seq<u8>), PostcardError>(
                (v@, rest@),
            ),
            Err(e) => match take_counted(bytes@) {
                Ok(taken) => taken.0.len() != 16 && e == PostcardError::SerdeDeCustom,
                Err(e0) => e == e0,
            },
        },
{
    match postcard::take_from_bytes::<uuid::Uuid>(bytes) {
        Ok((v, rest)) => Ok((v.into_bytes(), rest)),
        Err(postcard::Error::DeserializeUnexpectedEnd) => Err(
            PostcardError::DeserializeUnexpectedEnd,
        ),
        Err(postcard::Error::DeserializeBadVarint) => Err(PostcardError::DeserializeBadVarint),
        Err(_) => Err(PostcardError::SerdeDeCustom),
    }
}

// ---------------------------------------------------------------------------
// Frames
// ---------------------------------------------------------------------------

/// The number of bytes at the front of `bytes` that are not zero, counted up to `max`.
pub open spec fn run_length(bytes: Seq<u8>, max: nat) -> nat
    decreases max,
{
    if max == 0 || bytes.len() == 0 || bytes[0] == 0 {
        0
    } else {
        1 + run_length(bytes.skip(1), (max - 1) as nat)
    }
}

/// `bytes` after consistent overhead byte stuffing: each run of bytes that are not zero,
/// of at most 254, stands behind its length plus one. The zero that ends a shorter run
/// is left out.
pub open spec fn stuffed(bytes: Seq<u8>) -> Seq<u8>
    decreases bytes.len(),
{
    let run = run_length(bytes, 254);
    if run == 254 && bytes.len() >= 254 {
        seq![255u8] + bytes.take(254) + stuffed(bytes.skip(254))
    } else if run < bytes.len() {
        seq![(run + 1) as u8] + bytes.take(run as int) + stuffed(bytes.skip(run as int + 1))
    } else {
        seq![(run + 1) as u8] + bytes
    }
}

/// The frame made of `bytes`: they are stuffed, and a zero ends the frame.
pub open spec fn cobs(bytes: Seq<u8>) -> Seq<u8> {
    stuffed(bytes).push(0)
}

/// The bytes before the first zero, or all if there is none.
pub open spec fn before_zero(frame: Seq<u8>) -> Seq<u8>
    decreases frame.len(),
{
    if frame.len() == 0 || frame[0] == 0 {
        Seq::empty()
    } else {
        seq![frame[0]] + before_zero(frame.skip(1))
    }
}

/// The bytes that were stuffed, if `bytes` are such: every length is followed by as many
/// bytes as it says.
pub open spec fn unstuffed(bytes: Seq<u8>) -> Option<Seq<u8>>
    decreases bytes.len(),
{
    if bytes.len() == 0 {
        Some(Seq::empty())
    } else {
        let code = bytes[0] as int;
        if code == 0 || code > bytes.len() {
            None
        } else {
            let rest = bytes.skip(code);
            let zero = if code == 255 || rest.len() == 0 {
                Seq::empty()
            } else {
                seq![0u8]
            };
            match unstuffed(rest) {
                Some(behind) => Some(bytes.subrange(1, code) + zero + behind),
                None => None,
            }
        }
    }
}

/// The bytes that the frame at the front of `frame` was made of, if there is one: it ends
/// with a zero or with `frame`, which must not be empty.
pub open spec fn uncobs(frame: Seq<u8>) -> Option<Seq<u8>> {
    if frame.len() == 0 {
        None
    } else {
        unstuffed(before_zero(frame))
    }
}

/// Feeds a copy of `frame` to `cobs::decode_in_place`, as
/// `postcard::from_bytes_cobs` does before it deserializes a value: the bytes that the
/// frame was made of, or an error if it is none.
#[verifier::external_body]
fn cobs_unframe(frame: &[u8]) -> (r: Option<Vec<u8>>)
    ensures
        match r {
            Some(bytes) => uncobs(frame@) == Some(bytes@),
            None => uncobs(frame@) is None,
        },
{
    let mut bytes = frame.to_vec();
    match ::cobs::decode_in_place(&mut bytes) {
        Ok(len) => {
            bytes.truncate(len);
            Some(bytes)
        },
        Err(_) => None,
    }
}

/// Feeds `bytes` to `postcard::ser_flavors::Cobs`, as
/// `postcard::to_allocvec_cobs` does with the serialized value: the frame made of them.
#[verifier::external_body]
fn cobs_frame(bytes: &[u8]) -> (r: Vec<u8>)
    ensures
        r@ == cobs(bytes@),
{
    let out = postcard::ser_flavors::AllocVec::new();
    let mut frame = postcard::ser_flavors::Cobs::try_new(out).unwrap();
    postcard::ser_flavors::Flavor::try_extend(&mut frame, bytes).unwrap();
    postcard::ser_flavors::Flavor::finalize(frame).unwrap()
}

proof fn lemma_run_length(bytes: Seq<u8>, max: nat)
    ensures
        run_length(bytes, max) <= max,
        run_length(bytes, max) <= bytes.len(),
        forall|i: int| 0 <= i < run_length(bytes, max) ==> #[trigger] bytes[i] != 0,
        run_length(bytes, max) < max && run_length(bytes, max) < bytes.len() ==> bytes[run_length(
            bytes,
            max,
        ) as int] == 0,
    decreases max,
{
    if !(max == 0 || bytes.len() == 0 || bytes[0] == 0) {
        let rest = bytes.skip(1);
        lemma_run_length(rest, (max - 1) as nat);
        assert forall|i: int| 0 <= i < run_length(bytes, max) implies #[trigger] bytes[i] != 0 by {
            if i > 0 {
                assert(rest[i - 1] == bytes[i]);
            }
        }
    }
}

/// Stuffed bytes hold no zero, and can be unstuffed again.
proof fn lemma_stuffed(bytes: Seq<u8>)
    ensures
        stuffed(bytes).len() > 0,
        forall|i: int| 0 <= i < stuffed(bytes).len() ==> #[trigger] stuffed(bytes)[i] != 0,
        unstuffed(stuffed(bytes)) == Some(bytes),
    decreases bytes.len(),
{
    let run = run_length(bytes, 254);
    lemma_run_length(bytes, 254);
    let out = stuffed(bytes);
    let code = run + 1;
    assert(out[0] == code);
    if run == 254 {
        let rest = bytes.skip(254);
        lemma_stuffed(rest);
        assert(out.skip(code as int) =~= stuffed(rest));
        assert(out.subrange(1, code as int) =~= bytes.take(254));
        assert(bytes.take(254) + Seq::<u8>::empty() + rest =~= bytes);
    } else if run < bytes.len() {
        let rest = bytes.skip(run as int + 1);
        lemma_stuffed(rest);
        assert(out.skip(code as int) =~= stuffed(rest));
        assert(out.subrange(1, code as int) =~= bytes.take(run as int));
        assert(bytes.take(run as int) + seq![0u8] + rest =~= bytes);
    } else {
        assert(out.skip(code as int) =~= Seq::empty());
        assert(out.subrange(1, code as int) =~= bytes);
        assert(unstuffed(out.skip(code as int)) == Some(Seq::<u8>::empty()));
        assert(bytes + Seq::<u8>::empty() + Seq::<u8>::empty() =~= bytes);
    }
}

proof fn lemma_before_zero(bytes: Seq<u8>, behind: Seq<u8>)
    requires
        forall|i: int| 0 <= i < bytes.len() ==> #[trigger] bytes[i] != 0,
    ensures
        before_zero(bytes + seq![0u8] + behind) == bytes,
    decreases bytes.len(),
{
    let frame = bytes + seq![0u8] + behind;
    if bytes.len() == 0 {
        assert(frame[0] == 0);
        assert(bytes =~= Seq::empty());
    } else {
        assert(frame[0] == bytes[0]);
        let rest = bytes.skip(1);
        assert forall|i: int| 0 <= i < rest.len() implies #[trigger] rest[i] != 0 by {
            assert(rest[i] == bytes[i + 1]);
        }
        lemma_before_zero(rest, behind);
        assert(frame.skip(1) =~= rest + seq![0u8] + behind);
        assert(seq![bytes[0]] + rest =~= bytes);
    }
}

/// A frame ends with a zero and holds no other, and the bytes that it was made of are
/// found in it again, whatever follows it.
pub proof fn frames_are_found_again(bytes: Seq<u8>, behind: Seq<u8>)
    ensures
        cobs(bytes).len() > 1,
        forall|i: int|
            0 <= i < cobs(bytes).len() ==> (#[trigger] cobs(bytes)[i] == 0 <==> i == cobs(
                bytes,
            ).len() - 1),
        uncobs(cobs(bytes) + behind) == Some(bytes),
{
    lemma_stuffed(bytes);
    lemma_before_zero(stuffed(bytes), behind);
    assert(cobs(bytes) + behind =~= stuffed(bytes) + seq![0u8] + behind);
}

// ---------------------------------------------------------------------------
// Values with a byte format
// ---------------------------------------------------------------------------

/// A value with a byte format.
pub trait Codec: View + Sized {
    /// Whether a value can be encoded: what is out of memory's reach cannot.
    spec fn encodable(v: Self::V) -> bool;

    /// The bytes that stand for a value.
    spec fn encoding(v: Self::V) -> Seq<u8>;

    /// The value at the front of `bytes`, and the bytes behind it.
    spec fn decoding(bytes: Seq<u8>) -> Result<(Self::V, Seq<u8>), PostcardError>;

    /// Encodes the value.
    fn to_vec(&self) -> (r: Vec<u8>)
        ensures
            r@ == Self::encoding(self@),
            Self::encodable(self@),
    ;

    /// Decodes a value from the front of `bytes`, and returns it with the bytes
    /// behind it.
    fn take_from_bytes(bytes: &[u8]) -> (r: Result<(Self, &[u8]), PostcardError>)
        ensures
            match r {
                Ok((v, rest)) => Self::decoding(bytes@) == Ok::<
                    (Self::V, Seq<u8>),
                    PostcardError,
                >((v@, rest@)),
                Err(e) => Self::decoding(bytes@) == Err::<(Self::V, Seq<u8>), PostcardError>(e),
            },
    ;

    /// Whatever was encoded is decoded to the same value, and what follows it
    /// is left alone.
    proof fn round_trip(v: Self::V, rest: Seq<u8>)
        requires
            Self::encodable(v),
        ensures
            Self::decoding(Self::encoding(v) + rest) == Ok::<(Self::V, Seq<u8>), PostcardError>(
                (v, rest),
            ),
    ;
}

impl Codec for () {
    open spec fn encodable(v: ()) -> bool {
        true
    }

    open spec fn encoding(v: ()) -> Seq<u8> {
        Seq::empty()
    }

    open spec fn decoding(bytes: Seq<u8>) -> Result<((), Seq<u8>), PostcardError> {
        Ok(((), bytes))
    }

    fn to_vec(&self) -> (r: Vec<u8>) {
        Vec::new()
    }

    fn take_from_bytes(bytes: &[u8]) -> (r: Result<((), &[u8]), PostcardError>) {
        Ok(((), bytes))
    }

    proof fn round_trip(v: (), rest: Seq<u8>) {
        assert(Self::encoding(v) + rest =~= rest);
    }
}

impl Codec for u8 {
    open spec fn encodable(v: u8) -> bool {
        true
    }

    open spec fn encoding(v: u8) -> Seq<u8> {
        seq![v]
    }

    open spec fn decoding(bytes: Seq<u8>) -> Result<(u8, Seq<u8>), PostcardError> {
        if bytes.len() == 0 {
            Err(PostcardError::DeserializeUnexpectedEnd)
        } else {
            Ok((bytes[0], bytes.skip(1)))
        }
    }

    fn to_vec(&self) -> (r: Vec<u8>) {
        put_u8(*self)
    }

    fn take_from_bytes(bytes: &[u8]) -> (r: Result<(u8, &[u8]), PostcardError>) {
        take_u8(bytes)
    }

    proof fn round_trip(v: u8, rest: Seq<u8>) {
        assert((seq![v] + rest).skip(1) =~= rest);
    }
}

/// A `bool` is a byte that is 0 or 1.
impl Codec for bool {
    open spec fn encodable(v: bool) -> bool {
        true
    }

    open spec fn encoding(v: bool) -> Seq<u8> {
        seq![
            if v {
                1u8
            } else {
                0u8
            },
        ]
    }

    open spec fn decoding(bytes: Seq<u8>) -> Result<(bool, Seq<u8>), PostcardError> {
        if bytes.len() == 0 {
            Err(PostcardError::DeserializeUnexpectedEnd)
        } else if bytes[0] == 0 {
            Ok((false, bytes.skip(1)))
        } else if bytes[0] == 1 {
            Ok((true, bytes.skip(1)))
        } else {
            Err(PostcardError::DeserializeBadBool)
        }
    }

    fn to_vec(&self) -> (r: Vec<u8>) {
        if *self {
            put_u8(1)
        } else {
            put_u8(0)
        }
    }

    fn take_from_bytes(bytes: &[u8]) -> (r: Result<(bool, &[u8]), PostcardError>) {
        match take_u8(bytes) {
            Ok((0, rest)) => Ok((false, rest)),
            Ok((1, rest)) => Ok((true, rest)),
            Ok(_) => Err(PostcardError::DeserializeBadBool),
            Err(e) => Err(e),
        }
    }

    proof fn round_trip(v: bool, rest: Seq<u8>) {
        assert((Self::encoding(v) + rest).skip(1) =~= rest);
    }
}

impl Codec for u16 {
    open spec fn encodable(v: u16) -> bool {
        true
    }

    open spec fn encoding(v: u16) -> Seq<u8> {
        varint(v as nat)
    }

    open spec fn decoding(bytes: Seq<u8>) -> Result<(u16, Seq<u8>), PostcardError> {
        match take_uint(bytes, 16) {
            Ok((n, rest)) => Ok((n as u16, rest)),
            Err(e) => Err(e),
        }
    }

    fn to_vec(&self) -> (r: Vec<u8>) {
        put_u16(*self)
    }

    fn take_from_bytes(bytes: &[u8]) -> (r: Result<(u16, &[u8]), PostcardError>) {
        take_u16(bytes)
    }

    proof fn round_trip(v: u16, rest: Seq<u8>) {
        lemma_take_uint(v as nat, rest, 16);
    }
}

impl Codec for u32 {
    open spec fn encodable(v: u32) -> bool {
        true
    }

    open spec fn encoding(v: u32) -> Seq<u8> {
        varint(v as nat)
    }

    open spec fn decoding(bytes: Seq<u8>) -> Result<(u32, Seq<u8>), PostcardError> {
        match take_uint(bytes, 32) {
            Ok((n, rest)) => Ok((n as u32, rest)),
            Err(e) => Err(e),
        }
    }

    fn to_vec(&self) -> (r: Vec<u8>) {
        put_u32(*self)
    }

    fn take_from_bytes(bytes: &[u8]) -> (r: Result<(u32, &[u8]), PostcardError>) {
        take_u32(bytes)
    }

    proof fn round_trip(v: u32, rest: Seq<u8>) {
        lemma_take_uint(v as nat, rest, 32);
    }
}

/// A `usize` has the format of a `u64`. One that this machine cannot hold is
/// refused.
impl Codec for usize {
    open spec fn encodable(v: usize) -> bool {
        true
    }

    open spec fn encoding(v: usize) -> Seq<u8> {
        varint(v as nat)
    }

    open spec fn decoding(bytes: Seq<u8>) -> Result<(usize, Seq<u8>), PostcardError> {
        match take_uint(bytes, 64) {
            Ok((n, rest)) => if n <= usize::MAX {
                Ok((n as usize, rest))
            } else {
                Err(PostcardError::SerdeDeCustom)
            },
            Err(e) => Err(e),
        }
    }

    fn to_vec(&self) -> (r: Vec<u8>) {
        put_u64(*self as u64)
    }

    fn take_from_bytes(bytes: &[u8]) -> (r: Result<(usize, &[u8]), PostcardError>) {
        match take_u64(bytes) {
            Ok((n, rest)) => if n <= usize::MAX as u64 {
                Ok((n as usize, rest))
            } else {
                Err(PostcardError::SerdeDeCustom)
            },
            Err(e) => Err(e),
        }
    }

    proof fn round_trip(v: usize, rest: Seq<u8>) {
        lemma_take_uint(v as nat, rest, 64);
    }
}

impl Codec for i16 {
    open spec fn encodable(v: i16) -> bool {
        true
    }

    open spec fn encoding(v: i16) -> Seq<u8> {
        varint(zig_zag(v as int))
    }

    open spec fn decoding(bytes: Seq<u8>) -> Result<(i16, Seq<u8>), PostcardError> {
        match take_uint(bytes, 16) {
            Ok((n, rest)) => Ok((un_zig_zag(n) as i16, rest)),
            Err(e) => Err(e),
        }
    }

    fn to_vec(&self) -> (r: Vec<u8>) {
        put_i16(*self)
    }

    fn take_from_bytes(bytes: &[u8]) -> (r: Result<(i16, &[u8]), PostcardError>) {
        take_i16(bytes)
    }

    proof fn round_trip(v: i16, rest: Seq<u8>) {
        lemma_take_uint(zig_zag(v as int), rest, 16);
    }
}

impl Codec for String {
    open spec fn encodable(v: Seq<char>) -> bool {
        encode_utf8(v).len() <= usize::MAX
    }

    open spec fn encoding(v: Seq<char>) -> Seq<u8> {
        counted(encode_utf8(v))
    }

    open spec fn decoding(bytes: Seq<u8>) -> Result<(Seq<char>, Seq<u8>), PostcardError> {
        take_str(bytes)
    }

    fn to_vec(&self) -> (r: Vec<u8>) {
        let bytes = self.as_str().as_bytes();
        let len: usize = bytes.len();
        put_str(self.as_str())
    }

    fn take_from_bytes(bytes: &[u8]) -> (r: Result<(String, &[u8]), PostcardError>) {
        take_string(bytes)
    }

    proof fn round_trip(v: Seq<char>, rest: Seq<u8>) {
        vstd::utf8::encode_utf8_valid_utf8(v);
        vstd::utf8::encode_utf8_decode_utf8(v);
        lemma_take_counted(encode_utf8(v), rest);
    }
}

/// Bytes are counted.
impl Codec for Vec<u8> {
    open spec fn encodable(v: Seq<u8>) -> bool {
        v.len() <= usize::MAX
    }

    open spec fn encoding(v: Seq<u8>) -> Seq<u8> {
        counted(v)
    }

    open spec fn decoding(bytes: Seq<u8>) -> Result<(Seq<u8>, Seq<u8>), PostcardError> {
        take_counted(bytes)
    }

    fn to_vec(&self) -> (r: Vec<u8>) {
        let len: usize = self.len();
        put_bytes(self.as_slice())
    }

    fn take_from_bytes(bytes: &[u8]) -> (r: Result<(Vec<u8>, &[u8]), PostcardError>) {
        match take_slice(bytes) {
            Ok((v, rest)) => Ok((vstd::slice::slice_to_vec(v), rest)),
            Err(e) => Err(e),
        }
    }

    proof fn round_trip(v: Seq<u8>, rest: Seq<u8>) {
        lemma_take_counted(v, rest);
    }
}

/// A universally unique identifier.
#[derive(Clone, Copy, Debug, PartialEq, Eq, Hash)]
pub struct Uuid {
    /// The bytes of the identifier, in the order in which they are written.
    pub bytes: [u8; 16],
}

impl View for Uuid {
    type V = Seq<u8>;

    open spec fn view(&self) -> Seq<u8> {
        self.bytes@
    }
}

impl Uuid {
    /// The identifier made of the given bytes.
    pub fn from_bytes(bytes: [u8; 16]) -> (r: Uuid)
        ensures
            r@ == bytes@,
    {
        Uuid { bytes }
    }
}

impl Codec for Uuid {
    open spec fn encodable(v: Seq<u8>) -> bool {
        v.len() == 16
    }

    open spec fn encoding(v: Seq<u8>) -> Seq<u8> {
        counted(v)
    }

    open spec fn decoding(bytes: Seq<u8>) -> Result<(Seq<u8>, Seq<u8>), PostcardError> {
        match take_counted(bytes) {
            Ok((id, rest)) => if id.len() == 16 {
                Ok((id, rest))
            } else {
                Err(PostcardError::SerdeDeCustom)
            },
            Err(e) => Err(e),
        }
    }

    fn to_vec(&self) -> (r: Vec<u8>) {
        put_uuid(self.bytes)
    }

    fn take_from_bytes(bytes: &[u8]) -> (r: Result<(Uuid, &[u8]), PostcardError>) {
        match take_uuid(bytes) {
            Ok((id, rest)) => Ok((Uuid { bytes: id }, rest)),
            Err(e) => Err(e),
        }
    }

    proof fn round_trip(v: Seq<u8>, rest: Seq<u8>) {
        lemma_take_counted(v, rest);
    }
}

/// A pair is its first value followed by its second.
impl<A: Codec, B: Codec> Codec for (A, B) {
    open spec fn encodable(v: (A::V, B::V)) -> bool {
        A::encodable(v.0) && B::encodable(v.1)
    }

    open spec fn encoding(v: (A::V, B::V)) -> Seq<u8> {
        A::encoding(v.0) + B::encoding(v.1)
    }

    open spec fn decoding(bytes: Seq<u8>) -> Result<((A::V, B::V), Seq<u8>), PostcardError> {
        match A::decoding(bytes) {
            Ok((a, rest)) => match B::decoding(rest) {
                Ok((b, rest)) => Ok(((a, b), rest)),
                Err(e) => Err(e),
            },
            Err(e) => Err(e),
        }
    }

    fn to_vec(&self) -> (r: Vec<u8>) {
        let mut out = self.0.to_vec();
        let mut second = self.1.to_vec();
        out.append(&mut second);
        out
    }

    fn take_from_bytes(bytes: &[u8]) -> (r: Result<((A, B), &[u8]), PostcardError>) {
        match A::take_from_bytes(bytes) {
            Ok((a, rest)) => match B::take_from_bytes(rest) {
                Ok((b, rest)) => Ok(((a, b), rest)),
                Err(e) => Err(e),
            },
            Err(e) => Err(e),
        }
    }

    proof fn round_trip(v: (A::V, B::V), rest: Seq<u8>) {
        A::round_trip(v.0, B::encoding(v.1) + rest);
        B::round_trip(v.1, rest);
        assert(A::encoding(v.0) + B::encoding(v.1) + rest =~= A::encoding(v.0) + (B::encoding(v.1)
            + rest));
    }
}

/// Appends the encoding of `value` to `out`.
pub fn push<T: Codec>(out: &mut Vec<u8>, value: &T)
    ensures
        final(out)@ == old(out)@ + T::encoding(value@),
        T::encodable(value@),
{
    let mut bytes = value.to_vec();
    out.append(&mut bytes);
}

/// Decodes a value from the front of `bytes`, and forgets the bytes behind it.
pub fn from_bytes<T: Codec>(bytes: &[u8]) -> (r: Result<T, PostcardError>)
    ensures
        match r {
            Ok(v) => T::decoding(bytes@) matches Ok(taken) && taken.0 == v@,
            Err(e) => T::decoding(bytes@) == Err::<(T::V, Seq<u8>), PostcardError>(e),
        },
{
    match T::take_from_bytes(bytes) {
        Ok((v, _)) => Ok(v),
        Err(e) => Err(e),
    }
}

/// The value whose frame is at the front of `bytes`, and what follows its encoding
/// in the frame.
pub open spec fn decoding_framed<T: Codec>(bytes: Seq<u8>) -> Result<
    (T::V, Seq<u8>),
    PostcardError,
> {
    match uncobs(bytes) {
        Some(encoded) => T::decoding(encoded),
        None => Err(PostcardError::DeserializeBadEncoding),
    }
}

/// Decodes the value whose frame is at the front of `bytes`.
pub fn from_bytes_framed<T: Codec>(bytes: &[u8]) -> (r: Result<T, PostcardError>)
    ensures
        match r {
            Ok(v) => decoding_framed::<T>(bytes@) matches Ok(decoded) && v@ == decoded.0,
            Err(e) => decoding_framed::<T>(bytes@) == Err::<(T::V, Seq<u8>), PostcardError>(e),
        },
{
    match cobs_unframe(bytes) {
        Some(encoded) => from_bytes::<T>(encoded.as_slice()),
        None => Err(PostcardError::DeserializeBadEncoding),
    }
}

// ---------------------------------------------------------------------------
// Lists
// ---------------------------------------------------------------------------

/// Takes a length from the front of `bytes`.
fn take_len(bytes: &[u8]) -> (r: Result<(usize, &[u8]), PostcardError>)
    ensures
        match r {
            Ok((n, rest)) => take_uint(bytes@, usize::BITS as nat) == Ok::<
                (nat, Seq<u8>),
                PostcardError,
            >((n as nat, rest@)),
            Err(e) => take_uint(bytes@, usize::BITS as nat) == Err::<(nat, Seq<u8>), PostcardError>(
                e,
            ),
        },
{
    if usize::BITS == 64 {
        match take_u64(bytes) {
            Ok((n, rest)) => Ok((n as usize, rest)),
            Err(e) => Err(e),
        }
    } else {
        match take_u32(bytes) {
            Ok((n, rest)) => Ok((n as usize, rest)),
            Err(e) => Err(e),
        }
    }
}

/// The views of the values of a list.
pub open spec fn views<T: Codec>(values: Seq<T>) -> Seq<T::V> {
    values.map_values(|value: T| value@)
}

/// The encodings of the values of a list, one after the other.
pub open spec fn encodings<T: Codec>(values: Seq<T::V>) -> Seq<u8>
    decreases values.len(),
{
    if values.len() == 0 {
        Seq::empty()
    } else {
        encodings::<T>(values.drop_last()) + T::encoding(values.last())
    }
}

/// The bytes that stand for a list: its length, and then its values.
pub open spec fn list_encoding<T: Codec>(values: Seq<T::V>) -> Seq<u8> {
    varint(values.len()) + encodings::<T>(values)
}

/// Whether a list of at most `max` values can be encoded.
pub open spec fn list_encodable<T: Codec>(values: Seq<T::V>, max: nat) -> bool {
    &&& values.len() <= max
    &&& forall|i: int| 0 <= i < values.len() ==> T::encodable(#[trigger] values[i])
}

/// Takes `n` values from the front of `bytes`, for which there is room for `max`. The
/// first value for which there is no room is an error, unless it cannot be decoded.
pub open spec fn take_values<T: Codec>(bytes: Seq<u8>, n: nat, max: nat) -> Result<
    (Seq<T::V>, Seq<u8>),
    PostcardError,
>
    decreases n,
{
    if n == 0 {
        Ok((Seq::empty(), bytes))
    } else {
        match T::decoding(bytes) {
            Ok((value, rest)) => if max == 0 {
                Err(PostcardError::SerdeDeCustom)
            } else {
                behind(seq![value], take_values::<T>(rest, (n - 1) as nat, (max - 1) as nat))
            },
            Err(e) => Err(e),
        }
    }
}

/// The values that were taken, behind others.
pub open spec fn behind<V>(
    first: Seq<V>,
    taken: Result<(Seq<V>, Seq<u8>), PostcardError>,
) -> Result<(Seq<V>, Seq<u8>), PostcardError> {
    match taken {
        Ok((values, rest)) => Ok((first + values, rest)),
        Err(e) => Err(e),
    }
}

/// The list at the front of `bytes`, of at most `max` values, and the bytes behind it.
pub open spec fn list_decoding<T: Codec>(bytes: Seq<u8>, max: nat) -> Result<
    (Seq<T::V>, Seq<u8>),
    PostcardError,
> {
    match take_uint(bytes, usize::BITS as nat) {
        Ok((n, rest)) => take_values::<T>(rest, n, max),
        Err(e) => Err(e),
    }
}

/// Encodes a list.
pub fn put_list<T: Codec>(values: &Vec<T>) -> (r: Vec<u8>)
    ensures
        r@ == list_encoding::<T>(views(values@)),
        list_encodable::<T>(views(values@), values@.len()),
{
    let mut out = values.len().to_vec();
    let ghost all = views(values@);
    let mut i: usize = 0;
    assert(all.take(0) =~= Seq::empty());
    assert(out@ + encodings::<T>(all.take(0)) =~= out@);
    while i < values.len()
        invariant
            i <= values@.len(),
            all == views(values@),
            out@ == varint(values@.len()) + encodings::<T>(all.take(i as int)),
            forall|j: int| 0 <= j < i ==> T::encodable(#[trigger] all[j]),
        decreases values@.len() - i,
    {
        let ghost before = out@;
        push(&mut out, &values[i]);
        proof {
            let more = all.take(i + 1);
            assert(more.drop_last() =~= all.take(i as int));
            assert(more.last() == values@[i as int]@);
            assert(before + T::encoding(values@[i as int]@) =~= varint(values@.len())
                + encodings::<T>(more));
        }
        i += 1;
    }
    assert(all.take(all.len() as int) =~= all);
    out
}

/// Decodes a list of at most `max` values from the front of `bytes`, and returns it
/// with the bytes behind it.
pub fn take_list<T: Codec>(bytes: &[u8], max: usize) -> (r: Result<(Vec<T>, &[u8]), PostcardError>)
    ensures
        match r {
            Ok((values, rest)) => {
                &&& list_decoding::<T>(bytes@, max as nat) == Ok::<
                    (Seq<T::V>, Seq<u8>),
                    PostcardError,
                >((views(values@), rest@))
                &&& values@.len() <= max
            },
            Err(e) => list_decoding::<T>(bytes@, max as nat) == Err::<
                (Seq<T::V>, Seq<u8>),
                PostcardError,
            >(e),
        },
{
    let (n, start) = match take_len(bytes) {
        Ok(taken) => taken,
        Err(e) => {
            return Err(e);
        },
    };
    let ghost whole = take_values::<T>(start@, n as nat, max as nat);
    let mut values: Vec<T> = Vec::new();
    let mut rest = start;
    let mut left: usize = n;
    proof {
        assert(views(values@) =~= Seq::empty());
        lemma_behind_nothing(whole);
    }
    while left > 0
        invariant
            values@.len() <= max,
            whole == list_decoding::<T>(bytes@, max as nat),
            whole == behind(
                views(values@),
                take_values::<T>(rest@, left as nat, (max - values@.len()) as nat),
            ),
        decreases left,
    {
        let ghost here = rest@;
        let ghost before = views(values@);
        match T::take_from_bytes(rest) {
            Ok((value, behind_it)) => {
                if values.len() == max {
                    return Err(PostcardError::SerdeDeCustom);
                }
                let ghost room = (max - values@.len()) as nat;
                proof {
                    lemma_behind_twice(
                        before,
                        seq![value@],
                        take_values::<T>(behind_it@, (left - 1) as nat, (room - 1) as nat),
                    );
                    assert(views(values@.push(value)) =~= before + seq![value@]);
                }
                values.push(value);
                rest = behind_it;
                left -= 1;
            },
            Err(e) => {
                return Err(e);
            },
        }
    }
    assert(views(values@) + Seq::<T::V>::empty() =~= views(values@));
    Ok((values, rest))
}

proof fn lemma_behind_nothing<V>(taken: Result<(Seq<V>, Seq<u8>), PostcardError>)
    ensures
        behind(Seq::empty(), taken) == taken,
{
    if let Ok((values, rest)) = taken {
        assert(Seq::<V>::empty() + values =~= values);
    }
}

proof fn lemma_behind_twice<V>(
    first: Seq<V>,
    second: Seq<V>,
    taken: Result<(Seq<V>, Seq<u8>), PostcardError>,
)
    ensures
        behind(first, behind(second, taken)) == behind(first + second, taken),
{
    if let Ok((values, rest)) = taken {
        assert(first + (second + values) =~= first + second + values);
    }
}

/// Whatever list was encoded is decoded to the same list.
pub proof fn list_round_trip<T: Codec>(values: Seq<T::V>, max: nat, rest: Seq<u8>)
    requires
        list_encodable::<T>(values, max),
        max <= usize::MAX,
    ensures
        list_decoding::<T>(list_encoding::<T>(values) + rest, max) == Ok::<
            (Seq<T::V>, Seq<u8>),
            PostcardError,
        >((values, rest)),
{
    let body = encodings::<T>(values) + rest;
    assert(list_encoding::<T>(values) + rest =~= varint(values.len()) + body);
    lemma_take_uint(values.len(), body, usize::BITS as nat);
    lemma_take_values::<T>(values, max, rest);
}

proof fn lemma_take_values<T: Codec>(values: Seq<T::V>, max: nat, rest: Seq<u8>)
    requires
        list_encodable::<T>(values, max),
    ensures
        take_values::<T>(encodings::<T>(values) + rest, values.len(), max) == Ok::<
            (Seq<T::V>, Seq<u8>),
            PostcardError,
        >((values, rest)),
    decreases values.len(),
{
    if values.len() == 0 {
        assert(encodings::<T>(values) + rest =~= rest);
        assert(values =~= Seq::empty());
    } else {
        let first = values[0];
        let others = values.drop_first();
        lemma_encodings_first::<T>(values);
        assert forall|i: int| 0 <= i < others.len() implies T::encodable(#[trigger] others[i]) by {
            assert(others[i] == values[i + 1]);
        }
        assert(T::encodable(values[0]));
        T::round_trip(first, encodings::<T>(others) + rest);
        assert(encodings::<T>(values) + rest =~= T::encoding(first) + (encodings::<T>(others)
            + rest));
        lemma_take_values::<T>(others, (max - 1) as nat, rest);
        assert(seq![first] + others =~= values);
    }
}

proof fn lemma_encodings_first<T: Codec>(values: Seq<T::V>)
    requires
        values.len() > 0,
    ensures
        encodings::<T>(values) == T::encoding(values[0]) + encodings::<T>(values.drop_first()),
    decreases values.len(),
{
    let others = values.drop_first();
    if values.len() == 1 {
        assert(encodings::<T>(values.drop_last()) =~= Seq::empty());
        assert(encodings::<T>(others) =~= Seq::empty());
        assert(encodings::<T>(values) =~= T::encoding(values[0]) + encodings::<T>(others));
    } else {
        lemma_encodings_first::<T>(values.drop_last());
        assert(values.drop_last().drop_first() =~= others.drop_last());
        assert(encodings::<T>(values) =~= T::encoding(values[0]) + encodings::<T>(others));
    }
}

/// Encodes a value into the front of `buf`, and returns that part of `buf`. If
/// the encoding does not fit, `buf` is left as it is.
pub fn to_slice<'a, T: Codec>(value: &T, buf: &'a mut [u8]) -> (r: Result<
    &'a mut [u8],
    PostcardError,
>)
    ensures
        match r {
            Ok(used) => {
                let enc = T::encoding(value@);
                &&& enc.len() <= old(buf)@.len()
                &&& used@ == enc
                &&& final(buf)@ == final(used)@ + old(buf)@.skip(enc.len() as int)
            },
            Err(e) => {
                &&& T::encoding(value@).len() > old(buf)@.len()
                &&& e == PostcardError::SerializeBufferFull
                &&& final(buf)@ == old(buf)@
            },
        },
{
    let bytes = value.to_vec();
    copy_to_slice(&bytes, buf)
}

/// Copies `bytes` to the front of `buf`, and returns that part of `buf`. If
/// they do not fit, `buf` is left as it is.
pub fn copy_to_slice<'a>(bytes: &Vec<u8>, buf: &'a mut [u8]) -> (r: Result<
    &'a mut [u8],
    PostcardError,
>)
    ensures
        match r {
            Ok(used) => {
                &&& bytes@.len() <= old(buf)@.len()
                &&& used@ == bytes@
                &&& final(buf)@ == final(used)@ + old(buf)@.skip(bytes@.len() as int)
            },
            Err(e) => {
                &&& bytes@.len() > old(buf)@.len()
                &&& e == PostcardError::SerializeBufferFull
                &&& final(buf)@ == old(buf)@
            },
        },
{
    if bytes.len() > buf.len() {
        return Err(PostcardError::SerializeBufferFull);
    }
    let mid: usize = bytes.len();
    let (used, _) = buf.split_at_mut(mid);
    let mut i: usize = 0;
    while i < bytes.len()
        invariant
            i <= bytes.len(),
            used@.len() == bytes.len(),
            forall|j: int| 0 <= j < i ==> used@[j] == bytes@[j],
        decreases bytes.len() - i,
    {
        used[i] = bytes[i];
        i += 1;
    }
    assert(used@ =~= bytes@);
    Ok(used)
}

/// Encodes a value, and makes a frame of the encoding. A zero in the result ends
/// the frame. The value can be decoded from it again.
pub fn to_vec_framed<T: Codec>(value: &T) -> (r: Vec<u8>)
    ensures
        r@ == cobs(T::encoding(value@)),
        decoding_framed::<T>(r@) == Ok::<(T::V, Seq<u8>), PostcardError>((value@, Seq::empty())),
        r@.len() > 0,
        forall|i: int| 0 <= i < r@.len() ==> (#[trigger] r@[i] == 0 <==> i == r@.len() - 1),
{
    let bytes = value.to_vec();
    proof {
        T::round_trip(value@, Seq::empty());
        assert(bytes@ + Seq::<u8>::empty() =~= bytes@);
        frames_are_found_again(bytes@, Seq::empty());
        assert(cobs(bytes@) + Seq::<u8>::empty() =~= cobs(bytes@));
    }
    cobs_frame(bytes.as_slice())
}

/// Encodes a value, makes a frame of the encoding at the front of `buf`, and
/// returns that part of `buf`. If the frame does not fit, `buf` is left as it is.
pub fn to_slice_framed<'a, T: Codec>(value: &T, buf: &'a mut [u8]) -> (r: Result<
    &'a mut [u8],
    PostcardError,
>)
    ensures
        match r {
            Ok(used) => {
                let frame = cobs(T::encoding(value@));
                &&& frame.len() <= old(buf)@.len()
                &&& used@ == frame
                &&& final(buf)@ == final(used)@ + old(buf)@.skip(frame.len() as int)
            },
            Err(e) => {
                &&& cobs(T::encoding(value@)).len() > old(buf)@.len()
                &&& e == PostcardError::SerializeBufferFull
                &&& final(buf)@ == old(buf)@
            },
        },
{
    let frame = to_vec_framed(value);
    copy_to_slice(&frame, buf)
}

/// A list of more values than there is room for is refused, however well they are formed.
pub proof fn long_lists_are_refused<T: Codec>(values: Seq<T::V>, max: nat, rest: Seq<u8>)
    requires
        max < values.len() <= usize::MAX,
        forall|i: int| 0 <= i < values.len() ==> T::encodable(#[trigger] values[i]),
    ensures
        list_decoding::<T>(varint(values.len()) + encodings::<T>(values) + rest, max) == Err::<
            (Seq<T::V>, Seq<u8>),
            PostcardError,
        >(PostcardError::SerdeDeCustom),
{
    let body = encodings::<T>(values) + rest;
    assert(varint(values.len()) + encodings::<T>(values) + rest =~= varint(values.len()) + body);
    lemma_take_uint(values.len(), body, usize::BITS as nat);
    lemma_take_too_many::<T>(values, max, rest);
}

proof fn lemma_take_too_many<T: Codec>(values: Seq<T::V>, max: nat, rest: Seq<u8>)
    requires
        max < values.len(),
        forall|i: int| 0 <= i < values.len() ==> T::encodable(#[trigger] values[i]),
    ensures
        take_values::<T>(encodings::<T>(values) + rest, values.len(), max) == Err::<
            (Seq<T::V>, Seq<u8>),
            PostcardError,
        >(PostcardError::SerdeDeCustom),
    decreases values.len(),
{
    let first = values[0];
    let others = values.drop_first();
    lemma_encodings_first::<T>(values);
    assert(T::encodable(values[0]));
    T::round_trip(first, encodings::<T>(others) + rest);
    assert(encodings::<T>(values) + rest =~= T::encoding(first) + (encodings::<T>(others) + rest));
    if max > 0 {
        assert forall|i: int| 0 <= i < others.len() implies T::encodable(#[trigger] others[i]) by {
            assert(others[i] == values[i + 1]);
        }
        lemma_take_too_many::<T>(others, (max - 1) as nat, rest);
    }
}

/// Bytes that are no frame are refused as badly encoded, and a frame whose bytes stand for
/// no value with what is wrong with them.
pub proof fn bad_frames_are_refused<T: Codec>(bytes: Seq<u8>)
    ensures
        uncobs(bytes) is None ==> decoding_framed::<T>(bytes) == Err::<
            (T::V, Seq<u8>),
            PostcardError,
        >(PostcardError::DeserializeBadEncoding),
        uncobs(bytes) matches Some(encoded) ==> decoding_framed::<T>(bytes) == T::decoding(encoded),
        uncobs(Seq::empty()) is None,
{
}

/// Simple values are laid out as the format has them: a truth value as one byte, which is
/// refused unless it is 0 or 1; a text and a run of bytes behind their length; and two
/// values one after the other.
pub proof fn simple_values_are_laid_out_in_order<A: Codec, B: Codec>(
    flag: bool,
    text: Seq<char>,
    run: Seq<u8>,
    a: A::V,
    b: B::V,
    bytes: Seq<u8>,
)
    ensures
        <bool as Codec>::encoding(flag) == seq![
            if flag {
                1u8
            } else {
                0u8
            },
        ],
        bytes.len() > 0 && bytes[0] > 1 ==> <bool as Codec>::decoding(bytes) == Err::<
            (bool, Seq<u8>),
            PostcardError,
        >(PostcardError::DeserializeBadBool),
        bytes.len() == 0 ==> <bool as Codec>::decoding(bytes) == Err::<
            (bool, Seq<u8>),
            PostcardError,
        >(PostcardError::DeserializeUnexpectedEnd),
        <String as Codec>::encoding(text) == varint(encode_utf8(text).len()) + encode_utf8(text),
        <Vec<u8> as Codec>::encoding(run) == varint(run.len()) + run,
        <Uuid as Codec>::encoding(run) == varint(run.len()) + run,
        <(A, B) as Codec>::encoding((a, b)) == A::encoding(a) + B::encoding(b),
        <() as Codec>::encoding(()) == Seq::<u8>::empty(),
        <(A, B) as Codec>::decoding(bytes) == (match A::decoding(bytes) {
            Ok((first, rest)) => match B::decoding(rest) {
                Ok((second, behind)) => Ok(((first, second), behind)),
                Err(e) => Err(e),
            },
            Err(e) => Err(e),
        }),
{
}

/// A list is decoded value by value: each value follows the one before it, the first that
/// cannot be decoded is what is wrong with the list, and so is the first for which there is
/// no room.
pub proof fn lists_are_decoded_value_by_value<T: Codec>(bytes: Seq<u8>, n: nat, max: nat)
    ensures
        take_values::<T>(bytes, 0, max) == Ok::<(Seq<T::V>, Seq<u8>), PostcardError>(
            (Seq::empty(), bytes),
        ),
        T::decoding(bytes) matches Err(e) ==> take_values::<T>(bytes, n + 1, max) == Err::<
            (Seq<T::V>, Seq<u8>),
            PostcardError,
        >(e),
        T::decoding(bytes) matches Ok((first, rest)) ==> {
            &&& take_values::<T>(bytes, n + 1, 0) == Err::<(Seq<T::V>, Seq<u8>), PostcardError>(
                PostcardError::SerdeDeCustom,
            )
            &&& take_values::<T>(bytes, n + 1, max + 1) == match take_values::<T>(rest, n, max) {
                Ok((others, behind)) => Ok((seq![first] + others, behind)),
                Err(e) => Err(e),
            }
        },
        take_uint(bytes, usize::BITS as nat) matches Err(e) ==> list_decoding::<T>(bytes, max)
            == Err::<(Seq<T::V>, Seq<u8>), PostcardError>(e),
        take_uint(bytes, usize::BITS as nat) matches Ok((count, rest)) ==> list_decoding::<T>(
            bytes,
            max,
        ) == take_values::<T>(rest, count, max),
{
}

} // verus!
