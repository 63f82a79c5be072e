//! SQL arguments, the errors the functions raise, and the decoding of an
//! argument into a uint256.

use vstd::prelude::*;
use crate::decimal::{decimal, push_signed_decimal, push_usize_decimal, signed_decimal};
use crate::encoding::{lemma_left_pad, lemma_word_roundtrip, zero_bytes};
use crate::uint256::{Uint256, be_bytes, be_value, ruint_from_be_slice, ruint_from_u64, word_modulus};

verus! {

/// The storage class of an SQL value.
#[derive(Clone, Copy, Debug, PartialEq, Eq, Structural)]
pub enum SqlType {
    Null,
    Integer,
    Real,
    Text,
    Blob,
}

impl SqlType {
    /// The name of the storage class as the host reports it.
    pub open spec fn name_spec(self) -> Seq<char> {
        match self {
            SqlType::Null => "Null"@,
            SqlType::Integer => "Integer"@,
            SqlType::Real => "Real"@,
            SqlType::Text => "Text"@,
            SqlType::Blob => "Blob"@,
        }
    }

    pub fn name(&self) -> (r: &'static str)
        ensures
            r@ == self.name_spec(),
    {
        match self {
            SqlType::Null => "Null",
            SqlType::Integer => "Integer",
            SqlType::Real => "Real",
            SqlType::Text => "Text",
            SqlType::Blob => "Blob",
        }
    }
}

/// An argument of an SQL function call, as far as these functions read it:
/// the payload of a `REAL` or `TEXT` argument plays no part in them.
#[derive(Debug)]
pub enum SqlArg {
    Null,
    Integer(i64),
    Real,
    Text,
    Blob(Vec<u8>),
}

impl SqlArg {
    pub open spec fn data_type(&self) -> SqlType {
        match self {
            SqlArg::Null => SqlType::Null,
            SqlArg::Integer(_) => SqlType::Integer,
            SqlArg::Real => SqlType::Real,
            SqlArg::Text => SqlType::Text,
            SqlArg::Blob(_) => SqlType::Blob,
        }
    }

    pub fn sql_type(&self) -> (r: SqlType)
        ensures
            r == self.data_type(),
    {
        match self {
            SqlArg::Null => SqlType::Null,
            SqlArg::Integer(_) => SqlType::Integer,
            SqlArg::Real => SqlType::Real,
            SqlArg::Text => SqlType::Text,
            SqlArg::Blob(_) => SqlType::Blob,
        }
    }
}

/// The SQL functions of this crate.
#[derive(Clone, Copy, Debug, PartialEq, Eq, Structural)]
pub enum SqlFunction {
    U256Sum,
    U256ToDec,
    U256Mul,
    U256Add,
    FormatEther,
    FormatGwei,
    FormatUsd,
    Erc20ToReal,
}

impl SqlFunction {
    /// The SQL name of the function.
    pub open spec fn name_spec(self) -> Seq<char> {
        match self {
            SqlFunction::U256Sum => "u256_sum"@,
            SqlFunction::U256ToDec => "u256_to_dec"@,
            SqlFunction::U256Mul => "u256_mul"@,
            SqlFunction::U256Add => "u256_add"@,
            SqlFunction::FormatEther => "format_ether"@,
            SqlFunction::FormatGwei => "format_gwei"@,
            SqlFunction::FormatUsd => "format_usd"@,
            SqlFunction::Erc20ToReal => "erc20_to_real"@,
        }
    }

    pub fn name(&self) -> (r: &'static str)
        ensures
            r@ == self.name_spec(),
    {
        match self {
            SqlFunction::U256Sum => "u256_sum",
            SqlFunction::U256ToDec => "u256_to_dec",
            SqlFunction::U256Mul => "u256_mul",
            SqlFunction::U256Add => "u256_add",
            SqlFunction::FormatEther => "format_ether",
            SqlFunction::FormatGwei => "format_gwei",
            SqlFunction::FormatUsd => "format_usd",
            SqlFunction::Erc20ToReal => "erc20_to_real",
        }
    }
}

/// An error raised by one of the SQL functions.
#[derive(Clone, Copy, Debug, PartialEq, Eq, Structural)]
pub enum FnError {
    /// A negative `INTEGER` where a uint256 was expected.
    NegativeInteger { func: SqlFunction, value: i64 },
    /// A `BLOB` longer than 32 bytes where a uint256 was expected.
    BlobTooLarge { func: SqlFunction, len: usize },
    /// An argument of a storage class that cannot hold a uint256.
    NotAUint256 { func: SqlFunction, found: SqlType },
    /// A result past `U256::MAX`.
    Overflow { func: SqlFunction },
    /// `erc20_to_real` decimals outside `0..=77`.
    DecimalsOutOfRange { value: i64 },
    /// `erc20_to_real` decimals that are not an `INTEGER`.
    DecimalsNotInteger { found: SqlType },
    /// A `format_usd` price that is neither `REAL` nor `INTEGER`.
    PriceNotNumeric { found: SqlType },
}

impl FnError {
    /// The text of the error.
    pub open spec fn message_spec(self) -> Seq<char> {
        match self {
            FnError::NegativeInteger { func, value } => func.name_spec() + ": negative integer "@
                + signed_decimal(value as int) + " cannot be a uint256"@,
            FnError::BlobTooLarge { func, len } => func.name_spec()
                + ": blob too large, expected <= 32 bytes, got "@ + decimal(len as nat),
            FnError::NotAUint256 { func, found } => func.name_spec()
                + ": expected an integer or a blob of at most 32 bytes, got "@ + found.name_spec(),
            FnError::Overflow { func } => func.name_spec() + ": overflow past U256::MAX"@,
            FnError::DecimalsOutOfRange { value } => "erc20_to_real: decimals must be in 0..=77, got "@
                + signed_decimal(value as int),
            FnError::DecimalsNotInteger { found } => "erc20_to_real: decimals must be an integer, got "@
                + found.name_spec(),
            FnError::PriceNotNumeric { found } => "format_usd: price must be a real or integer, got "@
                + found.name_spec(),
        }
    }

    pub fn message(&self) -> (r: String)
        ensures
            r@ == self.message_spec(),
    {
        let mut out = String::new();
        match *self {
            FnError::NegativeInteger { func, value } => {
                out.append(func.name());
                out.append(": negative integer ");
                push_signed_decimal(&mut out, value);
                out.append(" cannot be a uint256");
            },
            FnError::BlobTooLarge { func, len } => {
                out.append(func.name());
                out.append(": blob too large, expected <= 32 bytes, got ");
                push_usize_decimal(&mut out, len);
            },
            FnError::NotAUint256 { func, found } => {
                out.append(func.name());
                out.append(": expected an integer or a blob of at most 32 bytes, got ");
                out.append(found.name());
            },
            FnError::Overflow { func } => {
                out.append(func.name());
                out.append(": overflow past U256::MAX");
            },
            FnError::DecimalsOutOfRange { value } => {
                out.append("erc20_to_real: decimals must be in 0..=77, got ");
                push_signed_decimal(&mut out, value);
            },
            FnError::DecimalsNotInteger { found } => {
                out.append("erc20_to_real: decimals must be an integer, got ");
                out.append(found.name());
            },
            FnError::PriceNotNumeric { found } => {
                out.append("format_usd: price must be a real or integer, got ");
                out.append(found.name());
            },
        }
        assert(out@ =~= self.message_spec());
        out
    }
}

/// What decoding `arg` as an operand of `func` gives: `None` for `NULL`, the
/// value of a non-negative `INTEGER`, the big-endian value of a `BLOB` of at
/// most 32 bytes (a shorter one reads as if left-padded with zero bytes), and
/// an error for anything else.
pub open spec fn decode_arg(arg: SqlArg, func: SqlFunction) -> Result<Option<nat>, FnError> {
    match arg {
        SqlArg::Null => Ok(None),
        SqlArg::Integer(n) => if n < 0 {
            Err(FnError::NegativeInteger { func, value: n })
        } else {
            Ok(Some(n as nat))
        },
        SqlArg::Blob(b) => if b@.len() > 32 {
            Err(FnError::BlobTooLarge { func, len: b@.len() as usize })
        } else {
            Ok(Some(be_value(b@)))
        },
        SqlArg::Real => Err(FnError::NotAUint256 { func, found: SqlType::Real }),
        SqlArg::Text => Err(FnError::NotAUint256 { func, found: SqlType::Text }),
    }
}

/// The numbers inside a decoded operand.
pub open spec fn operand_view(r: Result<Option<Uint256>, FnError>) -> Result<Option<nat>, FnError> {
    match r {
        Ok(Some(x)) => Ok(Some(x@)),
        Ok(None) => Ok(None),
        Err(e) => Err(e),
    }
}

/// The bytes of a `BLOB` result.
pub open spec fn blob_view(r: Result<Option<Vec<u8>>, FnError>) -> Result<Option<Seq<u8>>, FnError> {
    match r {
        Ok(Some(v)) => Ok(Some(v@)),
        Ok(None) => Ok(None),
        Err(e) => Err(e),
    }
}

/// The characters of a `TEXT` result.
pub open spec fn text_view(r: Result<Option<String>, FnError>) -> Result<Option<Seq<char>>, FnError> {
    match r {
        Ok(Some(s)) => Ok(Some(s@)),
        Ok(None) => Ok(None),
        Err(e) => Err(e),
    }
}

/// Decodes an argument of `func` into a uint256, as `decode_arg` says.
pub fn arg_to_u256(arg: &SqlArg, func: SqlFunction) -> (r: Result<Option<Uint256>, FnError>)
    ensures
        operand_view(r) == decode_arg(*arg, func),
{
    match arg {
        SqlArg::Null => Ok(None),
        SqlArg::Integer(n) => {
            if *n < 0 {
                return Err(FnError::NegativeInteger { func, value: *n });
            }
            Ok(Some(ruint_from_u64(*n as u64)))
        },
        SqlArg::Blob(b) => {
            if b.len() > 32 {
                return Err(FnError::BlobTooLarge { func, len: b.len() });
            }
            Ok(Some(ruint_from_be_slice(b.as_slice())))
        },
        SqlArg::Real => Err(FnError::NotAUint256 { func, found: SqlType::Real }),
        SqlArg::Text => Err(FnError::NotAUint256 { func, found: SqlType::Text }),
    }
}

/// A 32-byte BLOB that a function returned for a value decodes, as an operand
/// of any function, back to that value.
pub proof fn lemma_blob_result_decodes(blob: Vec<u8>, value: nat, func: SqlFunction)
    requires
        value < word_modulus(),
        blob@ == be_bytes(value, 32),
    ensures
        decode_arg(SqlArg::Blob(blob), func) == Ok::<Option<nat>, FnError>(Some(value)),
{
    lemma_word_roundtrip(value);
}

/// A BLOB shorter than 32 bytes decodes as if it were left-padded with zero
/// bytes to 32 bytes.
pub proof fn lemma_short_blob_left_padded(short: Vec<u8>, padded: Vec<u8>, func: SqlFunction)
    requires
        short@.len() <= 32,
        padded@ == zero_bytes((32 - short@.len()) as nat) + short@,
    ensures
        decode_arg(SqlArg::Blob(short), func) == decode_arg(SqlArg::Blob(padded), func),
{
    lemma_left_pad(short@, (32 - short@.len()) as nat);
}


/// A non-negative `INTEGER` and the 32-byte BLOB encoding of the same number
/// decode alike: both to that number.
pub proof fn lemma_integer_and_blob_decode_alike(n: i64, blob: Vec<u8>, func: SqlFunction)
    requires
        n >= 0,
        blob@ == be_bytes(n as nat, 32),
    ensures
        decode_arg(SqlArg::Integer(n), func) == Ok::<Option<nat>, FnError>(Some(n as nat)),
        decode_arg(SqlArg::Blob(blob), func) == Ok::<Option<nat>, FnError>(Some(n as nat)),
{
    assert(n < word_modulus());
    lemma_word_roundtrip(n as nat);
}

} // verus!
