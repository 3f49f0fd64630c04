//! Serialisation of events: codecs, and the bridge between event sum types and stored bytes.

use vstd::prelude::*;
use vstd::string::*;
use crate::store::PersistableEvent;
use crate::text::{debug_form, debug_string, joined, Describe};

verus! {

/// A result over a vector, seen as a result over a sequence.
pub open spec fn result_view<T, E>(r: Result<Vec<T>, E>) -> Result<Seq<T>, E> {
    match r {
        Ok(v) => Ok(v@),
        Err(e) => Err(e),
    }
}

/// Error returned when a stored event cannot be turned back into an event.
#[derive(Debug)]
pub enum EventDecodeError<CodecError> {
    /// The event kind was not recognised by the event type.
    UnknownKind {
        /// The kind that was not recognised.
        kind: String,
        /// The kinds that the event type can handle.
        expected: &'static [&'static str],
    },
    /// The codec failed on the event data.
    Codec(CodecError),
}

impl<CodecError> EventDecodeError<CodecError> {
    /// What [`EventDecodeError::message`] may write.
    pub open spec fn describes(&self, text: Seq<char>) -> bool where CodecError: Describe {
        match self {
            EventDecodeError::UnknownKind { kind, expected } => exists|list: Seq<char>|
                #[trigger] debug_form(*expected, list) && text
                    == "unknown event kind `"@ + kind@ + "`, expected one of "@ + list,
            EventDecodeError::Codec(error) => exists|inner: Seq<char>|
                #[trigger] error.describes(inner) && text
                    == "codec error: "@ + inner,
        }
    }

    /// The error in words.
    pub fn message(&self) -> (text: String) where CodecError: Describe
        ensures
            self.describes(text@),
    {
        match self {
            EventDecodeError::UnknownKind { kind, expected } => {
                let mut text = String::from_str("unknown event kind `");
                text.append(kind.as_str());
                text.append("`, expected one of ");
                let list = debug_string(expected);
                text.append(list.as_str());
                text
            },
            EventDecodeError::Codec(error) => joined("codec error: ", error.message().as_str()),
        }
    }

    /// The codec error that caused this one, where there is one.
    pub fn source(&self) -> (r: Option<&CodecError>)
        ensures
            r == match self {
                EventDecodeError::UnknownKind { .. } => None,
                EventDecodeError::Codec(error) => Some(error),
            },
    {
        match self {
            EventDecodeError::UnknownKind { .. } => None,
            EventDecodeError::Codec(error) => Some(error),
        }
    }
}

/// Serialisation strategy of an event store.
///
/// What a codec does to a value is its own affair; contracts refer to it through [`encodes`] and
/// [`decodes`].
pub trait Codec {
    type Error;

    /// The codec writes and reads JSON, as `serde_json` does.
    open spec fn is_json(&self) -> bool {
        false
    }

    /// The error of `serde_json` that an error of a JSON codec stands for.
    open spec fn json_error(error: Self::Error) -> serde_json::Error {
        arbitrary()
    }

    /// Serialises a value for persistence.
    fn serialize<T>(&self, value: &T) -> (r: Result<Vec<u8>, Self::Error>) where T: serde::Serialize
        ensures
            self.is_json() ==> json_written(
                *value,
                match r {
                    Ok(bytes) => Ok(bytes),
                    Err(error) => Err(Self::json_error(error)),
                },
            ),
    ;

    /// Deserialises a value from stored bytes.
    fn deserialize<T>(&self, data: &[u8]) -> (r: Result<T, Self::Error>) where
        T: serde::de::DeserializeOwned,

        ensures
            self.is_json() ==> json_read(
                data@,
                match r {
                    Ok(value) => Ok(value),
                    Err(error) => Err(Self::json_error(error)),
                },
            ),
    ;
}

/// Writing the value with `serde_json` may give `result`.
pub closed spec fn json_written<T: serde::Serialize>(
    value: T,
    result: Result<Vec<u8>, serde_json::Error>,
) -> bool {
    call_ensures(json_to_vec::<T>, (&value,), result)
}

/// Reading the data with `serde_json` may give `result`.
pub closed spec fn json_read<T: serde::de::DeserializeOwned>(
    data: Seq<u8>,
    result: Result<T, serde_json::Error>,
) -> bool {
    exists|bytes: &[u8]|
        bytes@ == data && #[trigger] call_ensures(json_from_slice::<T>, (bytes,), result)
}

/// Serialising `value` with `codec` may give `result`.
pub open spec fn encodes<C: Codec, T: serde::Serialize>(
    codec: C,
    value: T,
    result: Result<Seq<u8>, C::Error>,
) -> bool {
    exists|r: Result<Vec<u8>, C::Error>|
        #[trigger] call_ensures(C::serialize::<T>, (&codec, &value), r) && result == result_view(r)
}

/// Deserialising `data` with `codec` may give `result`.
pub open spec fn decodes<C: Codec, T: serde::de::DeserializeOwned>(
    codec: C,
    data: Seq<u8>,
    result: Result<T, C::Error>,
) -> bool {
    exists|bytes: &[u8]|
        bytes@ == data && #[trigger] call_ensures(C::deserialize::<T>, (&codec, bytes), result)
}

/// An event sum type that can write itself down for persistence.
pub trait SerializableEvent<C: Codec>: Sized {
    /// Writing `self` down may give `result`: an event kind with its data, or the codec's error.
    open spec fn persists(self, codec: C, result: Result<(Seq<char>, Seq<u8>), C::Error>) -> bool {
        true
    }

    /// Writes the event down: its kind, its data, and the metadata passed through.
    fn to_persistable<M>(self, codec: &C, metadata: M) -> (r: Result<PersistableEvent<M>, C::Error>)
        ensures
            match r {
                Ok(event) => self.persists(*codec, Ok((event.kind@, event.data@))) && event.metadata
                    == metadata,
                Err(error) => self.persists(*codec, Err(error)),
            },
    ;
}

/// An event sum type that can read itself back from stored events.
pub trait ProjectionEvent<C: Codec>: Sized {
    /// The event kinds that this type can read.
    const EVENT_KINDS: &'static [&'static str];

    /// Reading `data`, stored under `kind`, may give `result`.
    open spec fn restores(
        kind: Seq<char>,
        data: Seq<u8>,
        codec: C,
        result: Result<Self, EventDecodeError<C::Error>>,
    ) -> bool {
        true
    }

    /// Reads an event back from its stored form.
    ///
    /// The error is [`EventDecodeError::UnknownKind`] for a kind that the type does not know, and
    /// [`EventDecodeError::Codec`] where the codec fails.
    fn from_stored(kind: &str, data: &[u8], codec: &C) -> (r: Result<
        Self,
        EventDecodeError<C::Error>,
    >)
        ensures
            Self::restores(kind@, data@, *codec, r),
    ;
}

/// The JSON codec, backed by `serde_json`.
#[derive(Debug, Clone, Copy, Default)]
pub struct JsonCodec;

/// The error of `serde_json`.
#[verifier::external_type_specification]
#[verifier::external_body]
pub struct ExJsonError(serde_json::Error);

/// Calls `serde_json::to_vec`.
///
/// Nothing is claimed of the result: the value's own `Serialize` implementation takes part in it.
/// Contracts refer to it through [`json_written`].
#[verifier::external_body]
fn json_to_vec<T>(value: &T) -> (r: Result<Vec<u8>, serde_json::Error>) where T: serde::Serialize
{
    serde_json::to_vec(value)
}

/// Calls `serde_json::from_slice`.
///
/// Nothing is claimed of the result: the type's own `Deserialize` implementation takes part in it.
/// Contracts refer to it through [`json_read`].
#[verifier::external_body]
fn json_from_slice<T>(data: &[u8]) -> (r: Result<T, serde_json::Error>) where
    T: serde::de::DeserializeOwned,
{
    serde_json::from_slice(data)
}

impl Codec for JsonCodec {
    type Error = serde_json::Error;

    open spec fn is_json(&self) -> bool {
        true
    }

    open spec fn json_error(error: serde_json::Error) -> serde_json::Error {
        error
    }

    fn serialize<T>(&self, value: &T) -> (r: Result<Vec<u8>, serde_json::Error>) where
        T: serde::Serialize,
    {
        json_to_vec(value)
    }

    fn deserialize<T>(&self, data: &[u8]) -> (r: Result<T, serde_json::Error>) where
        T: serde::de::DeserializeOwned,
    {
        json_from_slice(data)
    }
}

/// What the JSON codec writes is what `serde_json` wrote for that value, and what it reads is what
/// `serde_json` read from those bytes.
proof fn law_json_is_serde_json<T: serde::Serialize + serde::de::DeserializeOwned>(
    value: T,
    written: Result<Vec<u8>, serde_json::Error>,
    data: Seq<u8>,
    read: Result<T, serde_json::Error>,
)
    ensures
        json_written(value, written) <==> call_ensures(json_to_vec::<T>, (&value,), written),
        json_read(data, read) <==> exists|bytes: &[u8]|
            bytes@ == data && #[trigger] call_ensures(json_from_slice::<T>, (bytes,), read),
        JsonCodec.is_json(),
        written matches Err(error) ==> <JsonCodec as Codec>::json_error(error) == error,
{
}

} // verus!
