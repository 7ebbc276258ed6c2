//! The (partial) contents of a Solana account as a query returns them, and
//! the decoding of base64-encoded account data into raw bytes.

use vstd::prelude::*;

use crate::rpc_config::Encoding;

verus! {

/// Declares `serde_json::Value`, the parsed-JSON document type, so that it
/// can stand in fields and signatures; the library carries such values
/// through without looking inside them.
#[verifier::external_type_specification]
#[verifier::external_body]
pub struct ExValue(serde_json::Value);

/// The (partial) contents of a Solana account.
#[derive(Debug)]
pub struct Account {
    /// Account balance in Lamports.
    pub lamports: u64,
    /// Serialized account data.
    pub data: AccountData,
    /// The bs58-encoded pubkey of the account owner.
    pub owner: String,
    /// Is the program executable?
    pub executable: bool,
    /// The epoch at which this account will next owe rent.
    pub rent_epoch: u64,
}

/// An account's data field: text under some encoding, or an already parsed
/// JSON document.
#[derive(Debug)]
pub enum AccountData {
    Encoded(String, Encoding),
    JsonParsed(ParsedAccount),
}

/// An account's data field as the cluster parsed it.
#[derive(Debug)]
pub struct ParsedAccount {
    pub parsed: serde_json::Value,
    pub program: String,
    pub space: u64,
}

/// Why account data could not be decoded into raw bytes.
#[derive(Debug, Clone, Copy, PartialEq, Eq, Structural)]
pub enum AccountDataError {
    /// The data text is not valid base64.
    InvalidBase64,
    /// The data is encoded, but not in base64.
    UnsupportedEncoding,
    /// The data is a parsed JSON document, not an encoded byte string.
    NotEncoded,
}

/// The bytes that the base64 alphabet assigns to a text, or an error for text
/// outside the encoding.
pub uninterp spec fn b64_decode_of(s: Seq<char>) -> Result<Seq<u8>, ()>;

/// Relies on `base64::decode`: the decoded bytes (and whether decoding
/// succeeds at all) are a function of the input text alone.
#[verifier::external_body]
fn base64_decode(s: &str) -> (r: Result<Vec<u8>, AccountDataError>)
    ensures
        (r is Ok) == (b64_decode_of(s@) is Ok),
        r matches Ok(v) ==> b64_decode_of(s@) matches Ok(b) && v@ == b,
        r matches Err(e) ==> e is InvalidBase64,
{
    match base64::decode(s) {
        Ok(v) => Ok(v),
        Err(_) => Err(AccountDataError::InvalidBase64),
    }
}

impl AccountData {
    /// The raw bytes of base64-encoded account data. Data under any other
    /// encoding, an already-parsed document, or text outside the base64
    /// alphabet is an error naming the reason.
    pub fn decoded_bytes(&self) -> (r: Result<Vec<u8>, AccountDataError>)
        ensures
            match r {
                Ok(v) => {
                    &&& self matches AccountData::Encoded(text, enc)
                    &&& self->Encoded_1 is Base64
                    &&& b64_decode_of(self->Encoded_0@) matches Ok(b)
                    &&& v@ == b
                },
                Err(e) => match *self {
                    AccountData::Encoded(_, enc) => if enc is Base64 {
                        e is InvalidBase64 && b64_decode_of(self->Encoded_0@) is Err
                    } else {
                        e is UnsupportedEncoding
                    },
                    AccountData::JsonParsed(_) => e is NotEncoded,
                },
            },
    {
        match self {
            AccountData::Encoded(text, enc) => match enc {
                Encoding::Base64 => base64_decode(text.as_str()),
                _ => Err(AccountDataError::UnsupportedEncoding),
            },
            AccountData::JsonParsed(_) => Err(AccountDataError::NotEncoded),
        }
    }

    /// The parsed JSON document of `jsonParsed` account data; encoded data is
    /// an error.
    pub fn parsed_value(self) -> (r: Result<serde_json::Value, AccountDataError>)
        ensures
            (r is Ok) == (self is JsonParsed),
            r is Err ==> (r matches Err(e) && e is NotEncoded),
    {
        match self {
            AccountData::JsonParsed(p) => Ok(p.parsed),
            AccountData::Encoded(_, _) => Err(AccountDataError::NotEncoded),
        }
    }
}

/// The payload of an upgradeable program account.
#[derive(Debug, Clone)]
pub struct Program {
    pub program_data: String,
}

/// An upgradeable-loader account, as the cluster parses it.
#[derive(Debug, Clone)]
pub enum ProgramAccount {
    Uninitialized,
    Program(Program),
}

} // verus!
