//! Types of outside crates that the library carries.
use vstd::prelude::*;

use reqwest::Error as ReqwestError;
use serde_json::Error as SerdeJsonError;

verus! {

/// The transport error of the HTTP client (`reqwest::Error`).
#[verifier::external_type_specification]
#[verifier::external_body]
pub struct ExReqwestError(ReqwestError);

/// A JSON encode/decode error (`serde_json::Error`).
#[verifier::external_type_specification]
#[verifier::external_body]
pub struct ExSerdeJsonError(SerdeJsonError);

/// A parsed JSON value of serde_json (`serde_json::Value`).
#[verifier::external_type_specification]
#[verifier::external_body]
pub struct ExJsonValue(serde_json::Value);

/// A filesystem path (`std::path::PathBuf`), carried as it is.
#[verifier::external_type_specification]
#[verifier::external_body]
pub struct ExPathBuf(std::path::PathBuf);

} // verus!
