//! What the ledger is asked to record for an upload, checked before anything
//! is sent: the content hash goes in as the 64 bytes of its hexadecimal text,
//! and the file name must fit the ledger's bounded field.

use crate::hasher::is_content_hash_text;
use crate::AgreementId;
use vstd::prelude::*;
use vstd::utf8::encode_utf8;

verus! {

/// Length in bytes of the hash field of a file registration.
pub const FILE_HASH_LEN: usize = 64;

/// The ledger's module that keeps the file registrations.
pub const FILES_PALLET: &'static str = "DeitosFs";

/// The call of that module that registers a file: it takes the agreement,
/// the hash field and the file name.
pub const REGISTER_FILE_CALL: &'static str = "register_file";

/// The ledger's module that keeps the time.
pub const TIMESTAMP_PALLET: &'static str = "Timestamp";

/// The storage item of that module that holds the current time.
pub const NOW_ENTRY: &'static str = "Now";

/// Why a file registration cannot be written for the ledger.
#[derive(Debug, Clone, Copy, PartialEq, Eq, Structural)]
pub enum EncodingError {
    /// The content hash is not 64 bytes long.
    HashLength,
    /// The file name is longer than the ledger's field.
    FileNameTooLong,
}

/// The arguments of the ledger's file registration call.
#[derive(Debug, PartialEq)]
pub struct FileRecord {
    agreement_id: AgreementId,
    file_hash: String,
    file_name: String,
}

/// Whether a content hash and a file name can be registered where the
/// ledger takes names of up to `name_limit` bytes.
pub open spec fn registrable(file_hash: Seq<char>, file_name: Seq<char>, name_limit: nat) -> bool {
    encode_utf8(file_hash).len() == FILE_HASH_LEN && encode_utf8(file_name).len() <= name_limit
}

/// The error for a content hash and a file name that cannot be registered.
/// The hash is looked at first.
pub open spec fn encoding_error(file_hash: Seq<char>) -> EncodingError {
    if encode_utf8(file_hash).len() != FILE_HASH_LEN {
        EncodingError::HashLength
    } else {
        EncodingError::FileNameTooLong
    }
}

/// Every text in the shape of a content hash has the length of the ledger's
/// hash field: it can be registered with any file name that fits.
pub proof fn lemma_content_hash_registrable(
    file_hash: Seq<char>,
    file_name: Seq<char>,
    name_limit: nat,
)
    requires
        is_content_hash_text(file_hash),
        encode_utf8(file_name).len() <= name_limit,
    ensures
        registrable(file_hash, file_name, name_limit),
{
    assert(vstd::utf8::is_ascii_chars(file_hash)) by {
        assert forall|i: int| 0 <= i < file_hash.len() implies '\0' <= #[trigger] file_hash[i]
            <= '\u{7f}' by {
            assert(crate::hex::is_lower_hex(file_hash[i]));
        }
    }
    vstd::utf8::is_ascii_chars_encode_utf8(file_hash);
}

impl FileRecord {
    /// The record with these three fields, or the error where the hash or
    /// the name cannot be registered.
    pub closed spec fn checked(
        agreement_id: AgreementId,
        file_hash: String,
        file_name: String,
        name_limit: usize,
    ) -> Result<FileRecord, EncodingError> {
        if registrable(file_hash@, file_name@, name_limit as nat) {
            Ok(FileRecord { agreement_id, file_hash, file_name })
        } else {
            Err(encoding_error(file_hash@))
        }
    }

    /// The agreement that the file is registered under.
    pub closed spec fn spec_agreement_id(&self) -> AgreementId {
        self.agreement_id
    }

    /// The hash field: the bytes of the content hash's text.
    pub closed spec fn spec_file_hash(&self) -> Seq<u8> {
        encode_utf8(self.file_hash@)
    }

    /// The name field: the bytes of the file name.
    pub closed spec fn spec_file_name(&self) -> Seq<u8> {
        encode_utf8(self.file_name@)
    }

    /// Whether the hash field has its fixed length.
    #[verifier::type_invariant]
    pub closed spec fn well_formed(&self) -> bool {
        encode_utf8(self.file_hash@).len() == FILE_HASH_LEN
    }

    /// A checked record holds the fields it was made of, with a hash of 64
    /// bytes and a name within the limit; and there is a record exactly where
    /// hash and name can be registered.
    pub proof fn lemma_checked(
        agreement_id: AgreementId,
        file_hash: String,
        file_name: String,
        name_limit: usize,
    )
        ensures
            Self::checked(agreement_id, file_hash, file_name, name_limit) is Ok <==> registrable(
                file_hash@,
                file_name@,
                name_limit as nat,
            ),
            Self::checked(agreement_id, file_hash, file_name, name_limit) matches Ok(record) ==> {
                &&& record.spec_agreement_id() == agreement_id
                &&& record.spec_file_hash() == encode_utf8(file_hash@)
                &&& record.spec_file_hash().len() == FILE_HASH_LEN
                &&& record.spec_file_name() == encode_utf8(file_name@)
                &&& record.spec_file_name().len() <= name_limit
            },
            Self::checked(agreement_id, file_hash, file_name, name_limit) matches Err(e) ==> e
                == encoding_error(file_hash@),
    {
    }

    /// Checks the fields of a file registration against the ledger's limits:
    /// the content hash must be 64 bytes long, and the file name no longer
    /// than `name_limit` bytes.
    pub fn new(
        agreement_id: AgreementId,
        file_hash: String,
        file_name: String,
        name_limit: usize,
    ) -> (record: Result<FileRecord, EncodingError>)
        ensures
            record == Self::checked(agreement_id, file_hash, file_name, name_limit),
            record is Ok <==> registrable(file_hash@, file_name@, name_limit as nat),
            record matches Ok(made) ==> {
                &&& made.spec_agreement_id() == agreement_id
                &&& made.spec_file_hash() == encode_utf8(file_hash@)
                &&& made.spec_file_name() == encode_utf8(file_name@)
            },
            record matches Err(error) ==> error == encoding_error(file_hash@),
    {
        if file_hash.as_str().as_bytes().len() != FILE_HASH_LEN {
            Err(EncodingError::HashLength)
        } else if file_name.as_str().as_bytes().len() > name_limit {
            Err(EncodingError::FileNameTooLong)
        } else {
            Ok(FileRecord { agreement_id, file_hash, file_name })
        }
    }

    /// The agreement that the file is registered under.
    pub fn agreement_id(&self) -> (id: AgreementId)
        ensures
            id == self.spec_agreement_id(),
    {
        self.agreement_id
    }

    /// The hash field: the 64 bytes of the content hash's text.
    pub fn file_hash(&self) -> (bytes: &[u8])
        ensures
            bytes@ == self.spec_file_hash(),
            bytes@.len() == FILE_HASH_LEN,
    {
        proof {
            use_type_invariant(self);
        }
        self.file_hash.as_str().as_bytes()
    }

    /// The name field: the bytes of the file name.
    pub fn file_name(&self) -> (bytes: &[u8])
        ensures
            bytes@ == self.spec_file_name(),
    {
        self.file_name.as_str().as_bytes()
    }
}

} // verus!
