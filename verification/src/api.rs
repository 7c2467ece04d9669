//! The errors of a call, and the envelope that every response arrives in.
//!
//! A response body is a JSON object with a member `ok`. Where `ok` is `false`,
//! the member `err` says why the server refused. Where `ok` is `true`, the
//! other members are the payload.

use vstd::prelude::*;
use crate::decode::{field, read_field, FromJson};
use crate::grammar;
use crate::json::{Json, JsonValue};
use crate::parser::parse;

verus! {

/// Why a response body could not be decoded.
#[derive(Clone, Copy, Debug, PartialEq, Eq)]
pub enum DecodeError {
    /// The body is no JSON text.
    Syntax,
    /// The body is a JSON text of another shape than was expected.
    Schema,
}

/// Why a request could not be sent or its response not be received.
#[derive(Clone, Debug, PartialEq, Eq)]
pub struct TransportError {
    pub message: String,
}

impl View for TransportError {
    type V = Seq<char>;

    open spec fn view(&self) -> Seq<char> {
        self.message@
    }
}

/// Why a call failed.
#[derive(Clone, Debug, PartialEq, Eq)]
pub enum Error {
    /// The sender failed; what it reported is kept as it was.
    Transport(TransportError),
    /// The server refused, with this message.
    Api(String),
    /// The response body could not be decoded.
    Decode(DecodeError),
}

/// The mathematical model of an `Error`.
pub enum ErrorModel {
    Transport(Seq<char>),
    Api(Seq<char>),
    Decode(DecodeError),
}

impl View for Error {
    type V = ErrorModel;

    open spec fn view(&self) -> ErrorModel {
        match self {
            Error::Transport(e) => ErrorModel::Transport(e@),
            Error::Api(message) => ErrorModel::Api(message@),
            Error::Decode(e) => ErrorModel::Decode(*e),
        }
    }
}

/// What a call returns.
pub type ApiResult<T> = Result<T, Error>;

/// The envelope that `body` holds, where the server accepted the call; the
/// server's message where it refused; and a decode error where `body` is no
/// JSON text, has no boolean `ok`, or says `ok: false` without a string `err`.
pub open spec fn envelope_of(body: Seq<char>) -> Result<JsonValue, ErrorModel> {
    match grammar::parse(body) {
        None => Err(ErrorModel::Decode(DecodeError::Syntax)),
        Some(value) => match field::<bool>(value, "ok"@) {
            Some(true) => Ok(value),
            Some(false) => match field::<String>(value, "err"@) {
                Some(message) => Err(ErrorModel::Api(message)),
                None => Err(ErrorModel::Decode(DecodeError::Schema)),
            },
            None => Err(ErrorModel::Decode(DecodeError::Schema)),
        },
    }
}

/// What a response with this body amounts to. Where the server accepted the
/// call and a payload is expected, the envelope is decoded as a `T`, and a
/// body that `T` does not accept is a decode error. Where no payload is
/// expected, an accepted call gives no data.
pub open spec fn response_of<T: FromJson>(body: Seq<char>, expect_data: bool) -> Result<
    Option<T::Model>,
    ErrorModel,
> {
    match envelope_of(body) {
        Err(e) => Err(e),
        Ok(value) => if expect_data {
            match T::decoded(value) {
                Some(data) => Ok(Some(data)),
                None => Err(ErrorModel::Decode(DecodeError::Schema)),
            }
        } else {
            Ok(None)
        },
    }
}

/// What a response with this body amounts to where a payload is expected.
pub open spec fn payload_of<T: FromJson>(body: Seq<char>) -> Result<T::Model, ErrorModel> {
    match envelope_of(body) {
        Err(e) => Err(e),
        Ok(value) => match T::decoded(value) {
            Some(data) => Ok(data),
            None => Err(ErrorModel::Decode(DecodeError::Schema)),
        },
    }
}

/// What a sender's reply amounts to where a payload is expected: the sender's
/// own error where it failed, and else what the body amounts to.
pub open spec fn reply_of<T: FromJson>(reply: Result<Seq<char>, Seq<char>>) -> Result<
    T::Model,
    ErrorModel,
> {
    match reply {
        Ok(body) => payload_of::<T>(body),
        Err(e) => Err(ErrorModel::Transport(e)),
    }
}

/// The model of an envelope that was read.
pub open spec fn envelope_model(r: Result<Json, Error>) -> Result<JsonValue, ErrorModel> {
    match r {
        Ok(json) => Ok(json@),
        Err(e) => Err(e@),
    }
}

/// The model of a response that was decoded.
pub open spec fn response_model<T: FromJson>(r: ApiResult<Option<T>>) -> Result<
    Option<T::Model>,
    ErrorModel,
> {
    match r {
        Ok(Some(data)) => Ok(Some(data.model())),
        Ok(None) => Ok(None),
        Err(e) => Err(e@),
    }
}

/// The model of what a call returned.
pub open spec fn result_model<T: FromJson>(r: ApiResult<T>) -> Result<T::Model, ErrorModel> {
    match r {
        Ok(data) => Ok(data.model()),
        Err(e) => Err(e@),
    }
}

/// The model of what a sender returned.
pub open spec fn reply_model(r: Result<String, TransportError>) -> Result<Seq<char>, Seq<char>> {
    match r {
        Ok(body) => Ok(body@),
        Err(e) => Err(e@),
    }
}

/// Reads the envelope of a response body.
pub fn read_envelope(body: &str) -> (r: Result<Json, Error>)
    ensures
        envelope_model(r) == envelope_of(body@),
{
    let json = match parse(body) {
        Some(json) => json,
        None => {
            return Err(Error::Decode(DecodeError::Syntax));
        },
    };
    match read_field::<bool>(&json, "ok") {
        Some(true) => Ok(json),
        Some(false) => match read_field::<String>(&json, "err") {
            Some(message) => Err(Error::Api(message)),
            None => Err(Error::Decode(DecodeError::Schema)),
        },
        None => Err(Error::Decode(DecodeError::Schema)),
    }
}

/// Decodes a response body. `expect_data` says whether the caller expects a
/// payload beside the `ok` flag.
pub fn parse_slack_response<T: FromJson>(response: &str, expect_data: bool) -> (r: ApiResult<
    Option<T>,
>)
    ensures
        response_model(r) == response_of::<T>(response@, expect_data),
{
    let json = match read_envelope(response) {
        Ok(json) => json,
        Err(e) => {
            return Err(e);
        },
    };
    if !expect_data {
        return Ok(None);
    }
    match T::from_json(&json) {
        Some(data) => Ok(Some(data)),
        None => Err(Error::Decode(DecodeError::Schema)),
    }
}

/// Turns what a sender returned into the result of a call that expects a
/// payload: the sender's error is handed on as it is, and a body is decoded.
pub fn finish<T: FromJson>(reply: Result<String, TransportError>) -> (r: ApiResult<T>)
    ensures
        result_model(r) == reply_of::<T>(reply_model(reply)),
{
    match reply {
        Err(e) => Err(Error::Transport(e)),
        Ok(body) => match parse_slack_response::<T>(body.as_str(), true) {
            Ok(Some(data)) => Ok(data),
            Ok(None) => Err(Error::Decode(DecodeError::Schema)),
            Err(e) => Err(e),
        },
    }
}

/// A refusal is reported as it came, whatever payload the caller expected:
/// a body that is a JSON object with `ok: false` and a string `err` gives an
/// API error that holds the characters of `err`, for every type `T` and with
/// or without a payload expected.
pub proof fn lemma_refusal_gives_api_error<T: FromJson>(
    body: Seq<char>,
    expect_data: bool,
    value: JsonValue,
    message: Seq<char>,
)
    requires
        grammar::parse(body) == Some(value),
        field::<bool>(value, "ok"@) == Some(false),
        field::<String>(value, "err"@) == Some(message),
    ensures
        response_of::<T>(body, expect_data) == Err::<Option<T::Model>, ErrorModel>(
            ErrorModel::Api(message),
        ),
        payload_of::<T>(body) == Err::<T::Model, ErrorModel>(ErrorModel::Api(message)),
{
}

/// A body that the expected type does not accept gives a decode error and no
/// data at all.
pub proof fn lemma_unaccepted_payload_gives_decode_error<T: FromJson>(
    body: Seq<char>,
    value: JsonValue,
)
    requires
        grammar::parse(body) == Some(value),
        field::<bool>(value, "ok"@) == Some(true),
        T::decoded(value) is None,
    ensures
        response_of::<T>(body, true) == Err::<Option<T::Model>, ErrorModel>(
            ErrorModel::Decode(DecodeError::Schema),
        ),
        payload_of::<T>(body) == Err::<T::Model, ErrorModel>(
            ErrorModel::Decode(DecodeError::Schema),
        ),
{
}

} // verus!
