//! Why something on the wire could not be decoded.
use crate::codec::{varint, push, Codec, PostcardError};
use vstd::prelude::*;
use vstd::string::StringExecFns;

verus! {

/// What was wrong with the bytes of a header or of a body.
#[derive(Copy, Clone, Debug, PartialEq, Eq, Structural)]
pub enum DecodeErrorKind {
    /// The input ended, but more data was expected.
    UnexpectedEnd,
    /// A variable length integer did not terminate, or is out of range.
    BadVarint,
    /// A boolean was neither 0 nor 1.
    BadBool,
    /// A character is not a unicode scalar value.
    BadChar,
    /// A string is not valid UTF-8.
    BadUtf8,
    /// The tag of an option was neither 0 nor 1.
    BadOption,
    /// The discriminant of an enum is out of range.
    BadEnum,
    /// The input was not well encoded.
    BadEncoding,
    /// The checksum does not match.
    BadCrc,
    /// The value refused what was decoded.
    SerdeDeCustom,
    /// Any other error.
    Unknown,
}

/// Why a frame could not be decoded.
#[derive(Copy, Clone, Debug, PartialEq, Eq, Structural)]
pub enum DecodeError {
    /// The header could not be decoded.
    Header(DecodeErrorKind),
    /// The body could not be decoded.
    Body(DecodeErrorKind),
    /// There were bytes behind a header that has no body.
    UnexpectedTrailingData,
}

pub type DecodeResult<T> = Result<T, DecodeError>;

impl DecodeErrorKind {
    /// The position of the kind in the list of kinds, by which it is encoded.
    pub open spec fn tag(self) -> u32 {
        match self {
            DecodeErrorKind::UnexpectedEnd => 0,
            DecodeErrorKind::BadVarint => 1,
            DecodeErrorKind::BadBool => 2,
            DecodeErrorKind::BadChar => 3,
            DecodeErrorKind::BadUtf8 => 4,
            DecodeErrorKind::BadOption => 5,
            DecodeErrorKind::BadEnum => 6,
            DecodeErrorKind::BadEncoding => 7,
            DecodeErrorKind::BadCrc => 8,
            DecodeErrorKind::SerdeDeCustom => 9,
            DecodeErrorKind::Unknown => 10,
        }
    }

    /// The kind at position `tag`, if there is one.
    pub open spec fn of_tag(tag: u32) -> Option<DecodeErrorKind> {
        match tag {
            0 => Some(DecodeErrorKind::UnexpectedEnd),
            1 => Some(DecodeErrorKind::BadVarint),
            2 => Some(DecodeErrorKind::BadBool),
            3 => Some(DecodeErrorKind::BadChar),
            4 => Some(DecodeErrorKind::BadUtf8),
            5 => Some(DecodeErrorKind::BadOption),
            6 => Some(DecodeErrorKind::BadEnum),
            7 => Some(DecodeErrorKind::BadEncoding),
            8 => Some(DecodeErrorKind::BadCrc),
            9 => Some(DecodeErrorKind::SerdeDeCustom),
            10 => Some(DecodeErrorKind::Unknown),
            _ => None,
        }
    }

    /// The kind that stands for an error of the `postcard` crate: errors that
    /// do not come from decoding have no kind of their own.
    pub open spec fn spec_from_postcard(error: PostcardError) -> DecodeErrorKind {
        match error {
            PostcardError::DeserializeUnexpectedEnd => DecodeErrorKind::UnexpectedEnd,
            PostcardError::DeserializeBadVarint => DecodeErrorKind::BadVarint,
            PostcardError::DeserializeBadBool => DecodeErrorKind::BadBool,
            PostcardError::DeserializeBadChar => DecodeErrorKind::BadChar,
            PostcardError::DeserializeBadUtf8 => DecodeErrorKind::BadUtf8,
            PostcardError::DeserializeBadOption => DecodeErrorKind::BadOption,
            PostcardError::DeserializeBadEnum => DecodeErrorKind::BadEnum,
            PostcardError::DeserializeBadEncoding => DecodeErrorKind::BadEncoding,
            PostcardError::DeserializeBadCrc => DecodeErrorKind::BadCrc,
            PostcardError::SerdeDeCustom => DecodeErrorKind::SerdeDeCustom,
            _ => DecodeErrorKind::Unknown,
        }
    }

    /// The kind that stands for an error of the `postcard` crate.
    pub fn from_postcard(error: PostcardError) -> (r: DecodeErrorKind)
        ensures
            r == DecodeErrorKind::spec_from_postcard(error),
    {
        match error {
            PostcardError::DeserializeUnexpectedEnd => DecodeErrorKind::UnexpectedEnd,
            PostcardError::DeserializeBadVarint => DecodeErrorKind::BadVarint,
            PostcardError::DeserializeBadBool => DecodeErrorKind::BadBool,
            PostcardError::DeserializeBadChar => DecodeErrorKind::BadChar,
            PostcardError::DeserializeBadUtf8 => DecodeErrorKind::BadUtf8,
            PostcardError::DeserializeBadOption => DecodeErrorKind::BadOption,
            PostcardError::DeserializeBadEnum => DecodeErrorKind::BadEnum,
            PostcardError::DeserializeBadEncoding => DecodeErrorKind::BadEncoding,
            PostcardError::DeserializeBadCrc => DecodeErrorKind::BadCrc,
            PostcardError::SerdeDeCustom => DecodeErrorKind::SerdeDeCustom,
            _ => DecodeErrorKind::Unknown,
        }
    }

    /// A description of the kind.
    pub open spec fn text(self) -> Seq<char> {
        match self {
            DecodeErrorKind::UnexpectedEnd => "hit the end of the buffer, but expected more data"@,
            DecodeErrorKind::BadVarint => "found a varint that didn't terminate, is the usize too big for this platform?"@,
            DecodeErrorKind::BadBool => "found a bool that wasn't 0 or 1"@,
            DecodeErrorKind::BadChar => "found an invalid unicode character"@,
            DecodeErrorKind::BadUtf8 => "tried to parse invalid UTF-8"@,
            DecodeErrorKind::BadOption => "found an Option discriminant that wasn't 0 or 1"@,
            DecodeErrorKind::BadEnum => "found an enum discriminant that was > u32::max_value()"@,
            DecodeErrorKind::BadEncoding => "the original data was not well encoded"@,
            DecodeErrorKind::BadCrc => "bad CRC while deserializing"@,
            DecodeErrorKind::SerdeDeCustom => "Serde deserializer error"@,
            DecodeErrorKind::Unknown => "unknown error"@,
        }
    }

    /// A description of the kind.
    pub fn describe(&self) -> (r: &'static str)
        ensures
            r@ == self.text(),
    {
        match self {
            DecodeErrorKind::UnexpectedEnd => "hit the end of the buffer, but expected more data",
            DecodeErrorKind::BadVarint => "found a varint that didn't terminate, is the usize too big for this platform?",
            DecodeErrorKind::BadBool => "found a bool that wasn't 0 or 1",
            DecodeErrorKind::BadChar => "found an invalid unicode character",
            DecodeErrorKind::BadUtf8 => "tried to parse invalid UTF-8",
            DecodeErrorKind::BadOption => "found an Option discriminant that wasn't 0 or 1",
            DecodeErrorKind::BadEnum => "found an enum discriminant that was > u32::max_value()",
            DecodeErrorKind::BadEncoding => "the original data was not well encoded",
            DecodeErrorKind::BadCrc => "bad CRC while deserializing",
            DecodeErrorKind::SerdeDeCustom => "Serde deserializer error",
            DecodeErrorKind::Unknown => "unknown error",
        }
    }
}

impl DecodeError {
    /// The error for a body that could not be decoded.
    pub fn body(error: PostcardError) -> (r: DecodeError)
        ensures
            r == DecodeError::Body(DecodeErrorKind::spec_from_postcard(error)),
    {
        DecodeError::Body(DecodeErrorKind::from_postcard(error))
    }

    /// The error for a header that could not be decoded.
    pub fn header(error: PostcardError) -> (r: DecodeError)
        ensures
            r == DecodeError::Header(DecodeErrorKind::spec_from_postcard(error)),
    {
        DecodeError::Header(DecodeErrorKind::from_postcard(error))
    }

    /// A description of the error.
    pub open spec fn text(self) -> Seq<char> {
        match self {
            DecodeError::Header(kind) => "error decoding frame header: "@ + kind.text(),
            DecodeError::Body(kind) => "error decoding frame body: "@ + kind.text(),
            DecodeError::UnexpectedTrailingData =>
                "unexpected trailing body data in a frame type without a body"@,
        }
    }

    /// A description of the error.
    pub fn describe(&self) -> (r: String)
        ensures
            r@ == self.text(),
    {
        match self {
            DecodeError::Header(kind) => "error decoding frame header: ".to_owned().concat(
                kind.describe(),
            ),
            DecodeError::Body(kind) => "error decoding frame body: ".to_owned().concat(
                kind.describe(),
            ),
            DecodeError::UnexpectedTrailingData =>
                "unexpected trailing body data in a frame type without a body".to_owned(),
        }
    }
}

impl View for DecodeErrorKind {
    type V = DecodeErrorKind;

    open spec fn view(&self) -> DecodeErrorKind {
        *self
    }
}

impl Codec for DecodeErrorKind {
    open spec fn encodable(v: DecodeErrorKind) -> bool {
        true
    }

    open spec fn encoding(v: DecodeErrorKind) -> Seq<u8> {
        <u32 as Codec>::encoding(v.tag())
    }

    open spec fn decoding(bytes: Seq<u8>) -> Result<(DecodeErrorKind, Seq<u8>), PostcardError> {
        match <u32 as Codec>::decoding(bytes) {
            Ok((tag, rest)) => match DecodeErrorKind::of_tag(tag) {
                Some(kind) => Ok((kind, rest)),
                None => Err(PostcardError::SerdeDeCustom),
            },
            Err(e) => Err(e),
        }
    }

    fn to_vec(&self) -> (r: Vec<u8>) {
        let tag: u32 = match self {
            DecodeErrorKind::UnexpectedEnd => 0,
            DecodeErrorKind::BadVarint => 1,
            DecodeErrorKind::BadBool => 2,
            DecodeErrorKind::BadChar => 3,
            DecodeErrorKind::BadUtf8 => 4,
            DecodeErrorKind::BadOption => 5,
            DecodeErrorKind::BadEnum => 6,
            DecodeErrorKind::BadEncoding => 7,
            DecodeErrorKind::BadCrc => 8,
            DecodeErrorKind::SerdeDeCustom => 9,
            DecodeErrorKind::Unknown => 10,
        };
        tag.to_vec()
    }

    fn take_from_bytes(bytes: &[u8]) -> (r: Result<(DecodeErrorKind, &[u8]), PostcardError>) {
        match <u32 as Codec>::take_from_bytes(bytes) {
            Ok((tag, rest)) => match tag {
                0 => Ok((DecodeErrorKind::UnexpectedEnd, rest)),
                1 => Ok((DecodeErrorKind::BadVarint, rest)),
                2 => Ok((DecodeErrorKind::BadBool, rest)),
                3 => Ok((DecodeErrorKind::BadChar, rest)),
                4 => Ok((DecodeErrorKind::BadUtf8, rest)),
                5 => Ok((DecodeErrorKind::BadOption, rest)),
                6 => Ok((DecodeErrorKind::BadEnum, rest)),
                7 => Ok((DecodeErrorKind::BadEncoding, rest)),
                8 => Ok((DecodeErrorKind::BadCrc, rest)),
                9 => Ok((DecodeErrorKind::SerdeDeCustom, rest)),
                10 => Ok((DecodeErrorKind::Unknown, rest)),
                _ => Err(PostcardError::SerdeDeCustom),
            },
            Err(e) => Err(e),
        }
    }

    proof fn round_trip(v: DecodeErrorKind, rest: Seq<u8>) {
        <u32 as Codec>::round_trip(v.tag(), rest);
    }
}

impl View for DecodeError {
    type V = DecodeError;

    open spec fn view(&self) -> DecodeError {
        *self
    }
}

impl Codec for DecodeError {
    open spec fn encodable(v: DecodeError) -> bool {
        true
    }

    open spec fn encoding(v: DecodeError) -> Seq<u8> {
        match v {
            DecodeError::Header(kind) => <u32 as Codec>::encoding(0)
                + <DecodeErrorKind as Codec>::encoding(kind),
            DecodeError::Body(kind) => <u32 as Codec>::encoding(1)
                + <DecodeErrorKind as Codec>::encoding(kind),
            DecodeError::UnexpectedTrailingData => <u32 as Codec>::encoding(2),
        }
    }

    open spec fn decoding(bytes: Seq<u8>) -> Result<(DecodeError, Seq<u8>), PostcardError> {
        match <u32 as Codec>::decoding(bytes) {
            Ok((tag, rest)) => if tag == 0 || tag == 1 {
                match <DecodeErrorKind as Codec>::decoding(rest) {
                    Ok((kind, rest)) => if tag == 0 {
                        Ok((DecodeError::Header(kind), rest))
                    } else {
                        Ok((DecodeError::Body(kind), rest))
                    },
                    Err(e) => Err(e),
                }
            } else if tag == 2 {
                Ok((DecodeError::UnexpectedTrailingData, rest))
            } else {
                Err(PostcardError::SerdeDeCustom)
            },
            Err(e) => Err(e),
        }
    }

    fn to_vec(&self) -> (r: Vec<u8>) {
        match self {
            DecodeError::Header(kind) => {
                let mut out = 0u32.to_vec();
                push(&mut out, kind);
                out
            },
            DecodeError::Body(kind) => {
                let mut out = 1u32.to_vec();
                push(&mut out, kind);
                out
            },
            DecodeError::UnexpectedTrailingData => 2u32.to_vec(),
        }
    }

    fn take_from_bytes(bytes: &[u8]) -> (r: Result<(DecodeError, &[u8]), PostcardError>) {
        match <u32 as Codec>::take_from_bytes(bytes) {
            Ok((tag, rest)) => if tag == 0 || tag == 1 {
                match <DecodeErrorKind as Codec>::take_from_bytes(rest) {
                    Ok((kind, rest)) => if tag == 0 {
                        Ok((DecodeError::Header(kind), rest))
                    } else {
                        Ok((DecodeError::Body(kind), rest))
                    },
                    Err(e) => Err(e),
                }
            } else if tag == 2 {
                Ok((DecodeError::UnexpectedTrailingData, rest))
            } else {
                Err(PostcardError::SerdeDeCustom)
            },
            Err(e) => Err(e),
        }
    }

    proof fn round_trip(v: DecodeError, rest: Seq<u8>) {
        match v {
            DecodeError::Header(kind) => {
                <(u32, DecodeErrorKind) as Codec>::round_trip((0, kind), rest);
            },
            DecodeError::Body(kind) => {
                <(u32, DecodeErrorKind) as Codec>::round_trip((1, kind), rest);
            },
            DecodeError::UnexpectedTrailingData => {
                <u32 as Codec>::round_trip(2, rest);
            },
        }
    }
}

/// Errors of decoding keep their kind, and no two of them have the same; all other
/// errors are unknown.
pub proof fn kinds_tell_errors_apart(a: PostcardError, b: PostcardError)
    ensures
        DecodeErrorKind::spec_from_postcard(a) is Unknown <==> (a is WontImplement
            || a is NotYetImplemented || a is SerializeBufferFull || a is SerializeSeqLengthUnknown
            || a is SerdeSerCustom || a is CollectStrError),
        DecodeErrorKind::spec_from_postcard(a) == DecodeErrorKind::spec_from_postcard(b) && a != b
            ==> DecodeErrorKind::spec_from_postcard(a) is Unknown,
        DecodeErrorKind::spec_from_postcard(a) is UnexpectedEnd <==> a is DeserializeUnexpectedEnd,
        DecodeErrorKind::spec_from_postcard(a) is BadVarint <==> a is DeserializeBadVarint,
        DecodeErrorKind::spec_from_postcard(a) is BadBool <==> a is DeserializeBadBool,
        DecodeErrorKind::spec_from_postcard(a) is BadChar <==> a is DeserializeBadChar,
        DecodeErrorKind::spec_from_postcard(a) is BadUtf8 <==> a is DeserializeBadUtf8,
        DecodeErrorKind::spec_from_postcard(a) is BadOption <==> a is DeserializeBadOption,
        DecodeErrorKind::spec_from_postcard(a) is BadEnum <==> a is DeserializeBadEnum,
        DecodeErrorKind::spec_from_postcard(a) is BadEncoding <==> a is DeserializeBadEncoding,
        DecodeErrorKind::spec_from_postcard(a) is BadCrc <==> a is DeserializeBadCrc,
        DecodeErrorKind::spec_from_postcard(a) is SerdeDeCustom <==> a is SerdeDeCustom,
{
}

/// A kind of error is laid out as its place in the list of kinds, and a decoding error
/// as its number and its kind.
pub proof fn decode_errors_are_laid_out_in_order(kind: DecodeErrorKind)
    ensures
        <DecodeErrorKind as Codec>::encoding(kind) == varint(
            match kind {
                DecodeErrorKind::UnexpectedEnd => 0,
                DecodeErrorKind::BadVarint => 1,
                DecodeErrorKind::BadBool => 2,
                DecodeErrorKind::BadChar => 3,
                DecodeErrorKind::BadUtf8 => 4,
                DecodeErrorKind::BadOption => 5,
                DecodeErrorKind::BadEnum => 6,
                DecodeErrorKind::BadEncoding => 7,
                DecodeErrorKind::BadCrc => 8,
                DecodeErrorKind::SerdeDeCustom => 9,
                DecodeErrorKind::Unknown => 10,
            },
        ),
        <DecodeError as Codec>::encoding(DecodeError::Header(kind)) == varint(0)
            + <DecodeErrorKind as Codec>::encoding(kind),
        <DecodeError as Codec>::encoding(DecodeError::Body(kind)) == varint(1)
            + <DecodeErrorKind as Codec>::encoding(kind),
        <DecodeError as Codec>::encoding(DecodeError::UnexpectedTrailingData) == varint(2),
{
}

/// Numbers that belong to no error are refused.
pub proof fn errors_that_do_not_exist_are_refused(bytes: Seq<u8>)
    ensures
        <u32 as Codec>::decoding(bytes) matches Ok((tag, rest)) ==> {
            &&& tag > 10 ==> <DecodeErrorKind as Codec>::decoding(bytes) == Err::<
                (DecodeErrorKind, Seq<u8>),
                PostcardError,
            >(PostcardError::SerdeDeCustom)
            &&& tag > 2 ==> <DecodeError as Codec>::decoding(bytes) == Err::<
                (DecodeError, Seq<u8>),
                PostcardError,
            >(PostcardError::SerdeDeCustom)
        },
{
}

/// A decoding error is described by where it is, and by its kind, each of which has its own
/// description.
pub proof fn decode_errors_are_described(kind: DecodeErrorKind)
    ensures
        DecodeError::Header(kind).text() == "error decoding frame header: "@ + kind.text(),
        DecodeError::Body(kind).text() == "error decoding frame body: "@ + kind.text(),
        DecodeError::UnexpectedTrailingData.text()
            == "unexpected trailing body data in a frame type without a body"@,
        kind is UnexpectedEnd ==> kind.text()
            == "hit the end of the buffer, but expected more data"@,
        kind is BadVarint ==> kind.text()
            == "found a varint that didn't terminate, is the usize too big for this platform?"@,
        kind is BadBool ==> kind.text() == "found a bool that wasn't 0 or 1"@,
        kind is BadChar ==> kind.text() == "found an invalid unicode character"@,
        kind is BadUtf8 ==> kind.text() == "tried to parse invalid UTF-8"@,
        kind is BadOption ==> kind.text() == "found an Option discriminant that wasn't 0 or 1"@,
        kind is BadEnum ==> kind.text()
            == "found an enum discriminant that was > u32::max_value()"@,
        kind is BadEncoding ==> kind.text() == "the original data was not well encoded"@,
        kind is BadCrc ==> kind.text() == "bad CRC while deserializing"@,
        kind is SerdeDeCustom ==> kind.text() == "Serde deserializer error"@,
        kind is Unknown ==> kind.text() == "unknown error"@,
{
}

} // verus!
