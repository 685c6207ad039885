//! What an upload is made of: the name under which the file is registered,
//! the lifetime of the credential, the request made to the storage provider,
//! and what can end an attempt.

use crate::chain::EncodingError;
use crate::jwt::SigningError;
use crate::Timestamp;
use reqwest::Url;
use std::path::Path;
use vstd::prelude::*;
use vstd::string::StringExecFns;

verus! {

/// `std::path::Path`, a path of the file system. Nothing of its inside is
/// seen here.
#[verifier::external_type_specification]
#[verifier::external_body]
pub struct ExPath(Path);

/// Why a path gives no name to register the file under.
#[derive(Debug, Clone, Copy, PartialEq, Eq, Structural)]
pub enum FileNameError {
    /// The path has no final component: it is empty, a root, or ends in `..`.
    Missing,
    /// The final component is not Unicode text.
    NotUnicode,
}

/// The final component of a path, as text: nothing where the path has no
/// final component, and nothing inside where that component is not Unicode.
/// The path alone decides it.
pub uninterp spec fn final_component_text(path: &Path) -> Option<Option<Seq<char>>>;

/// `Path::file_name`, with the component turned into text by `OsStr::to_str`:
/// nothing where the path has no final component, and nothing inside where
/// that component is not Unicode. Both read the path and nothing else, so
/// the same path gives the same text each time; which text that is, is not
/// said.
#[verifier::external_body]
fn final_component(path: &Path) -> (component: Option<Option<String>>)
    ensures
        match component {
            None => final_component_text(path) is None,
            Some(None) => final_component_text(path) == Some(None::<Seq<char>>),
            Some(Some(text)) => final_component_text(path) == Some(Some(text@)),
        },
{
    match path.file_name() {
        None => None,
        Some(name) => match name.to_str() {
            None => Some(None),
            Some(text) => Some(Some(text.to_owned())),
        },
    }
}

/// The file name that a final component stands for.
pub fn file_name_from(component: Option<Option<String>>) -> (name: Result<String, FileNameError>)
    ensures
        name == match component {
            None => Err::<String, FileNameError>(FileNameError::Missing),
            Some(None) => Err(FileNameError::NotUnicode),
            Some(Some(text)) => Ok(text),
        },
{
    match component {
        None => Err(FileNameError::Missing),
        Some(None) => Err(FileNameError::NotUnicode),
        Some(Some(text)) => Ok(text),
    }
}

/// The name of the file at `path`: its final component, as text. There is
/// none where the path has no final component, or where that component is
/// not Unicode.
pub fn get_file_name(path: &Path) -> (name: Result<String, FileNameError>)
    ensures
        match name {
            Ok(text) => final_component_text(path) == Some(Some(text@)),
            Err(FileNameError::Missing) => final_component_text(path) is None,
            Err(FileNameError::NotUnicode) => final_component_text(path) == Some(
                None::<Seq<char>>,
            ),
        },
{
    file_name_from(final_component(path))
}

/// Whether `name` is what the final component of `path` gives: its text, or
/// the error that says why there is none.
pub open spec fn is_file_name_of(name: Result<Seq<char>, FileNameError>, path: &Path) -> bool {
    match name {
        Ok(text) => final_component_text(path) == Some(Some(text)),
        Err(FileNameError::Missing) => final_component_text(path) is None,
        Err(FileNameError::NotUnicode) => final_component_text(path) == Some(None::<Seq<char>>),
    }
}

/// The same path gives the same file name, or fails in the same way, each
/// time: two results for one path agree.
pub proof fn lemma_one_name_for_a_path(
    path: &Path,
    first: Result<Seq<char>, FileNameError>,
    second: Result<Seq<char>, FileNameError>,
)
    requires
        is_file_name_of(first, path),
        is_file_name_of(second, path),
    ensures
        first == second,
{
}

/// How long a credential stays good, in milliseconds: 24 hours.
pub const JWT_TTL: Timestamp = 24 * 60 * 60 * 1000;

/// The HTTP status with which the provider accepts an upload.
pub const STATUS_OK: u16 = 200;

/// The path of the provider's upload endpoint.
pub const UPLOAD_PATH: &'static str = "/v1/files";

/// The name of the part of the request's body that holds the file.
pub const FILE_PART: &'static str = "file";

/// What comes before the credential in the `Authorization` header.
pub const BEARER: &'static str = "Bearer ";

/// The time at which a credential issued at `issued` is no longer good, where
/// that time can be written.
pub open spec fn expiry(issued: Timestamp) -> Option<Timestamp> {
    if issued + JWT_TTL <= u64::MAX {
        Some((issued + JWT_TTL) as u64)
    } else {
        None
    }
}

/// The time at which a credential issued at `issued` is no longer good:
/// `JWT_TTL` later. There is none where that time is past what a timestamp
/// can say.
pub fn expiration_for(issued: Timestamp) -> (expiration: Option<Timestamp>)
    ensures
        expiration == expiry(issued),
{
    issued.checked_add(JWT_TTL)
}

/// A credential is good for exactly 24 hours: its expiry and the time of
/// issue are 86 400 000 milliseconds apart.
pub proof fn lemma_lifetime(issued: Timestamp)
    ensures
        JWT_TTL == 86_400_000,
        expiry(issued) is Some <==> issued <= u64::MAX - 86_400_000,
        expiry(issued) matches Some(expiration) ==> expiration - issued == JWT_TTL,
{
}

/// Whether `text` is a valid address: one that can be read as a URL.
pub uninterp spec fn is_address(text: Seq<char>) -> bool;

/// `Url::parse`: whether `text` can be read as a URL.
#[verifier::external_body]
fn reads_as_address(text: &str) -> (valid: bool)
    ensures
        valid == is_address(text@),
{
    Url::parse(text).is_ok()
}

/// The address of the provider's upload endpoint, where `ip_url` is the
/// provider's base address: the base address followed by `/v1/files`. There
/// is none where the base address is not a valid address.
pub open spec fn endpoint_of(ip_url: Seq<char>) -> Option<Seq<char>> {
    if is_address(ip_url) {
        Some(ip_url + UPLOAD_PATH@)
    } else {
        None
    }
}

/// The address of the provider's upload endpoint, where `ip_url` is the
/// provider's base address: the base address followed by `/v1/files`. There
/// is none where `ip_url` is not a valid address.
pub fn upload_endpoint(ip_url: &str) -> (endpoint: Option<String>)
    ensures
        endpoint is Some <==> is_address(ip_url@),
        endpoint matches Some(text) ==> text@ == ip_url@ + UPLOAD_PATH@,
{
    if reads_as_address(ip_url) {
        let mut endpoint = ip_url.to_owned();
        endpoint.append(UPLOAD_PATH);
        Some(endpoint)
    } else {
        None
    }
}

/// The value of the `Authorization` header that presents `credential`.
pub fn authorization_header(credential: &str) -> (value: String)
    ensures
        value@ == BEARER@ + credential@,
{
    let mut value = BEARER.to_owned();
    value.append(credential);
    value
}

/// Why an upload attempt ended without the file at the provider.
#[derive(Debug, PartialEq)]
pub enum UploadError {
    /// The file could not be read.
    Io(String),
    /// The provider's base address is not a valid address.
    Address,
    /// The ledger node could not be reached.
    Connection(String),
    /// The file registration cannot be written for the ledger.
    Encoding(EncodingError),
    /// The node refused the registration before it was included.
    Submission(String),
    /// The registration was dropped or never became final.
    Finalization(String),
    /// The ledger's time could not be read.
    Query(String),
    /// The ledger's time is so late that no expiry 24 hours after it can be
    /// written.
    Expiry,
    /// No credential could be made.
    Signing(SigningError),
    /// The request did not reach the provider.
    Transport(String),
    /// The provider answered with another status than 200. `body` is what it
    /// answered.
    Upload { status: u16, body: String },
    /// The event does not answer the step that was asked for.
    OutOfTurn,
}

/// What the provider's answer means: the upload is done where the status is
/// 200, and failed otherwise, with the status and the body as they came.
pub open spec fn outcome(status: u16, body: String) -> Result<(), UploadError> {
    if status == STATUS_OK {
        Ok(())
    } else {
        Err(UploadError::Upload { status, body })
    }
}

/// What the provider's answer means: the upload is done where the status is
/// 200, and failed otherwise, with the status and the body as they came.
pub fn upload_outcome(status: u16, body: String) -> (result: Result<(), UploadError>)
    ensures
        result == outcome(status, body),
{
    if status == STATUS_OK {
        Ok(())
    } else {
        Err(UploadError::Upload { status, body })
    }
}

} // verus!
