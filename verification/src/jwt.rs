//! The bearer credential: a token of three segments joined by dots, in the
//! shape of a JSON Web Token. The first segment holds the header, the second
//! the claims, the third a signature over the first two with the account's
//! sr25519 key.

use crate::base64url::{
    base64url, base64url_decoded, decode_unpadded, encodable_len, encode, encode_unpadded,
    is_base64url_text, is_segment_of,
};
use crate::json::{
    decimal, is_decimal_digit, json_string, lemma_decimal_digits, lemma_decimal_injective,
    lemma_decimal_len_of_integers, lemma_digits_at_end, lemma_escape_len,
    lemma_json_string_injective, lemma_same_end, lemma_same_start, push_decimal,
    push_json_string,
};
use crate::{AgreementId, Timestamp};
use sp_core::crypto::{Pair as PairOps, Ss58Codec};
use sp_core::sr25519::Pair;
use vstd::prelude::*;
use vstd::string::{
    is_ascii_spec_bytes, StrSliceExecFns, StringExecFns, StringSliceAdditionalSpecFns,
};
use vstd::utf8::encode_utf8;

verus! {

/// The character between two segments of a token.
pub const SEPARATOR: char = '.';

/// The byte of the character between two segments.
pub const SEPARATOR_BYTE: u8 = 0x2e;

/// The algorithm that the header names.
pub const ALGORITHM: &'static str = "Sr25519";

/// Length in bytes of an sr25519 signature.
pub const SIGNATURE_LEN: usize = 64;

/// Length in characters of the segment that holds a signature.
pub const SIGNATURE_SEGMENT_LEN: usize = 86;

/// The longest address of an account, in bytes.
pub const ADDRESS_LIMIT: usize = 50;

/// A length in bytes, 128 MiB, up to which a subject and an algorithm name
/// always make a header and claims that can be written as segments.
pub const TEXT_LIMIT: usize = 0x0800_0000;

/// `sp_core::sr25519::Pair`, an account's key pair. Nothing of its inside
/// is seen here: it is handed on to the calls that sign.
#[verifier::external_type_specification]
#[verifier::external_body]
pub struct ExPair(Pair);

/// The kind of token that a header announces.
#[derive(Debug, Clone, Copy, PartialEq, Eq, Structural)]
pub enum HeaderType {
    /// A JSON Web Token, written `JWT`.
    JsonWebToken,
}

/// The header of a token.
#[derive(Debug, PartialEq)]
pub struct Header {
    /// The name of the signing algorithm, the member `alg`.
    pub algorithm: String,
    /// The kind of token, the member `typ`, left out where there is none.
    pub type_: Option<HeaderType>,
}

/// The claims of a token.
#[derive(Debug, PartialEq)]
pub struct Claims {
    /// The subject: the account's address.
    sub: String,
    /// The audience: the agreement that the token is good for.
    aud: AgreementId,
    /// The time after which the token is no longer good.
    exp: Timestamp,
    /// The time at which the token was issued.
    iat: Timestamp,
}

/// What a set of claims says.
pub ghost struct ClaimSet {
    pub sub: Seq<char>,
    pub aud: AgreementId,
    pub exp: Timestamp,
    pub iat: Timestamp,
}

/// Why no token was made.
#[derive(Debug, Clone, Copy, PartialEq, Eq, Structural)]
pub enum SigningError {
    /// A segment would be longer than `usize` can say.
    SegmentTooLong,
}

/// The bytes of a piece of text.
pub open spec fn bytes_of(text: &str) -> Seq<u8> {
    encode_utf8(text@)
}

/// The JSON text of a header: `alg`, then `typ` if there is one.
pub open spec fn header_json(algorithm: Seq<char>, type_: Option<HeaderType>) -> Seq<u8> {
    bytes_of("{\"alg\":") + json_string(encode_utf8(algorithm)) + (match type_ {
        Some(HeaderType::JsonWebToken) => bytes_of(",\"typ\":\"JWT\""),
        None => Seq::<u8>::empty(),
    }) + bytes_of("}")
}

/// The JSON text of a set of claims: `sub`, `aud`, `exp` and `iat`, in this
/// order.
pub open spec fn claims_json(claims: ClaimSet) -> Seq<u8> {
    bytes_of("{\"sub\":") + json_string(encode_utf8(claims.sub)) + bytes_of(",\"aud\":") + decimal(
        claims.aud as nat,
    ) + bytes_of(",\"exp\":") + decimal(claims.exp as nat) + bytes_of(",\"iat\":") + decimal(
        claims.iat as nat,
    ) + bytes_of("}")
}

/// The header that every issued token carries.
pub open spec fn issued_header_json() -> Seq<u8> {
    header_json(ALGORITHM@, Some(HeaderType::JsonWebToken))
}

/// The text that is signed: the header segment, a dot, the claims segment.
pub open spec fn unsigned_text(header: Seq<u8>, claims: Seq<u8>) -> Seq<char> {
    base64url(header) + seq![SEPARATOR] + base64url(claims)
}

/// The text of a token: what is signed, a dot, the signature segment.
pub open spec fn token_text(header: Seq<u8>, claims: Seq<u8>, signature: Seq<u8>) -> Seq<char> {
    unsigned_text(header, claims) + seq![SEPARATOR] + base64url(signature)
}

/// The lengths of the fixed pieces of the two JSON texts.
proof fn lemma_fixed_pieces()
    ensures
        bytes_of("{\"alg\":").len() == 7,
        bytes_of(",\"typ\":\"JWT\"").len() == 12,
        bytes_of("{\"sub\":").len() == 7,
        bytes_of(",\"aud\":").len() == 7,
        bytes_of(",\"exp\":").len() == 7,
        bytes_of(",\"iat\":").len() == 7,
        bytes_of("}").len() == 1,
{
    reveal_strlit("{\"alg\":");
    reveal_strlit(",\"typ\":\"JWT\"");
    reveal_strlit("{\"sub\":");
    reveal_strlit(",\"aud\":");
    reveal_strlit(",\"exp\":");
    reveal_strlit(",\"iat\":");
    reveal_strlit("}");
    vstd::utf8::is_ascii_chars_encode_utf8("{\"alg\":"@);
    vstd::utf8::is_ascii_chars_encode_utf8(",\"typ\":\"JWT\""@);
    vstd::utf8::is_ascii_chars_encode_utf8("{\"sub\":"@);
    vstd::utf8::is_ascii_chars_encode_utf8(",\"aud\":"@);
    vstd::utf8::is_ascii_chars_encode_utf8(",\"exp\":"@);
    vstd::utf8::is_ascii_chars_encode_utf8(",\"iat\":"@);
    vstd::utf8::is_ascii_chars_encode_utf8("}"@);
}

/// The JSON text of a header is at most six times as long as the name of the
/// algorithm, and 22 bytes more.
pub proof fn lemma_header_json_len(algorithm: Seq<char>, type_: Option<HeaderType>)
    ensures
        header_json(algorithm, type_).len() <= 6 * encode_utf8(algorithm).len() + 22,
{
    lemma_fixed_pieces();
    lemma_escape_len(encode_utf8(algorithm));
}

/// The JSON text of a set of claims is at most six times as long as the
/// subject, and 81 bytes more.
pub proof fn lemma_claims_json_len(claims: ClaimSet)
    ensures
        claims_json(claims).len() <= 6 * encode_utf8(claims.sub).len() + 81,
{
    lemma_fixed_pieces();
    lemma_escape_len(encode_utf8(claims.sub));
    lemma_decimal_len_of_integers(claims.aud as nat);
    lemma_decimal_len_of_integers(claims.exp as nat);
    lemma_decimal_len_of_integers(claims.iat as nat);
}

/// A header and claims whose algorithm name and subject are no longer than
/// `TEXT_LIMIT` can always be written as segments.
pub proof fn lemma_short_texts_encodable(
    algorithm: Seq<char>,
    type_: Option<HeaderType>,
    claims: ClaimSet,
)
    requires
        encode_utf8(algorithm).len() <= TEXT_LIMIT,
        encode_utf8(claims.sub).len() <= TEXT_LIMIT,
    ensures
        encodable_len(header_json(algorithm, type_).len()),
        encodable_len(claims_json(claims).len()),
{
    lemma_header_json_len(algorithm, type_);
    lemma_claims_json_len(claims);
}

/// The header that every issued token carries can be written as a segment.
pub proof fn lemma_issued_header_encodable()
    ensures
        encode_utf8(ALGORITHM@).len() == 7,
        encodable_len(issued_header_json().len()),
{
    reveal_strlit("Sr25519");
    vstd::utf8::is_ascii_chars_encode_utf8(ALGORITHM@);
    lemma_header_json_len(ALGORITHM@, Some(HeaderType::JsonWebToken));
}

/// The names of the three numeric members end in a colon, which is no digit.
proof fn lemma_member_names()
    ensures
        bytes_of(",\"aud\":").len() > 0 && !is_decimal_digit(bytes_of(",\"aud\":").last()),
        bytes_of(",\"exp\":").len() > 0 && !is_decimal_digit(bytes_of(",\"exp\":").last()),
        bytes_of(",\"iat\":").len() > 0 && !is_decimal_digit(bytes_of(",\"iat\":").last()),
{
    reveal_strlit(",\"aud\":");
    reveal_strlit(",\"exp\":");
    reveal_strlit(",\"iat\":");
    vstd::utf8::is_ascii_chars_encode_utf8(",\"aud\":"@);
    vstd::utf8::is_ascii_chars_encode_utf8(",\"exp\":"@);
    vstd::utf8::is_ascii_chars_encode_utf8(",\"iat\":"@);
    assert(",\"aud\":"@[6] == ':');
    assert(",\"exp\":"@[6] == ':');
    assert(",\"iat\":"@[6] == ':');
}

/// No two sets of claims have the same JSON text: the text tells the
/// subject, the audience, the expiry and the time of issue.
pub proof fn lemma_claims_json_injective(first: ClaimSet, second: ClaimSet)
    requires
        claims_json(first) == claims_json(second),
    ensures
        first.sub == second.sub,
        first.aud == second.aud,
        first.exp == second.exp,
        first.iat == second.iat,
{
    lemma_member_names();
    lemma_decimal_digits(first.aud as nat);
    lemma_decimal_digits(first.exp as nat);
    lemma_decimal_digits(first.iat as nat);
    lemma_decimal_digits(second.aud as nat);
    lemma_decimal_digits(second.exp as nat);
    lemma_decimal_digits(second.iat as nat);
    let sub_1 = bytes_of("{\"sub\":") + json_string(encode_utf8(first.sub));
    let sub_2 = bytes_of("{\"sub\":") + json_string(encode_utf8(second.sub));
    let aud_1 = sub_1 + bytes_of(",\"aud\":");
    let aud_2 = sub_2 + bytes_of(",\"aud\":");
    let exp_1 = aud_1 + decimal(first.aud as nat) + bytes_of(",\"exp\":");
    let exp_2 = aud_2 + decimal(second.aud as nat) + bytes_of(",\"exp\":");
    let iat_1 = exp_1 + decimal(first.exp as nat) + bytes_of(",\"iat\":");
    let iat_2 = exp_2 + decimal(second.exp as nat) + bytes_of(",\"iat\":");
    assert(claims_json(first) == iat_1 + decimal(first.iat as nat) + bytes_of("}"));
    assert(claims_json(second) == iat_2 + decimal(second.iat as nat) + bytes_of("}"));
    lemma_same_end(
        iat_1 + decimal(first.iat as nat),
        iat_2 + decimal(second.iat as nat),
        bytes_of("}"),
    );
    lemma_digits_at_end(iat_1, decimal(first.iat as nat), iat_2, decimal(second.iat as nat));
    lemma_decimal_injective(first.iat as nat, second.iat as nat);
    lemma_same_end(
        exp_1 + decimal(first.exp as nat),
        exp_2 + decimal(second.exp as nat),
        bytes_of(",\"iat\":"),
    );
    lemma_digits_at_end(exp_1, decimal(first.exp as nat), exp_2, decimal(second.exp as nat));
    lemma_decimal_injective(first.exp as nat, second.exp as nat);
    lemma_same_end(
        aud_1 + decimal(first.aud as nat),
        aud_2 + decimal(second.aud as nat),
        bytes_of(",\"exp\":"),
    );
    lemma_digits_at_end(aud_1, decimal(first.aud as nat), aud_2, decimal(second.aud as nat));
    lemma_decimal_injective(first.aud as nat, second.aud as nat);
    lemma_same_end(sub_1, sub_2, bytes_of(",\"aud\":"));
    lemma_same_start(
        bytes_of("{\"sub\":"),
        json_string(encode_utf8(first.sub)),
        json_string(encode_utf8(second.sub)),
    );
    lemma_json_string_injective(encode_utf8(first.sub), encode_utf8(second.sub));
    vstd::utf8::encode_utf8_decode_utf8(first.sub);
    vstd::utf8::encode_utf8_decode_utf8(second.sub);
}

/// Appends the bytes of `text`.
fn push_text(out: &mut Vec<u8>, text: &str)
    ensures
        final(out)@ == old(out)@ + bytes_of(text),
{
    let bytes = text.as_bytes();
    let mut i: usize = 0;
    while i < bytes.len()
        invariant
            i <= bytes.len(),
            bytes@ == bytes_of(text),
            out@ == old(out)@ + bytes@.take(i as int),
        decreases bytes.len() - i,
    {
        out.push(bytes[i]);
        assert(bytes@.take(i + 1) =~= bytes@.take(i as int).push(bytes@[i as int]));
        i = i + 1;
    }
    assert(bytes@.take(i as int) =~= bytes@);
}

impl Header {
    /// The JSON text of the header.
    pub open spec fn json(&self) -> Seq<u8> {
        header_json(self.algorithm@, self.type_)
    }

    /// The JSON text of the header, as bytes.
    pub fn to_json(&self) -> (text: Vec<u8>)
        ensures
            text@ == self.json(),
    {
        let mut text: Vec<u8> = Vec::new();
        push_text(&mut text, "{\"alg\":");
        push_json_string(&mut text, self.algorithm.as_str().as_bytes());
        match self.type_ {
            Some(HeaderType::JsonWebToken) => {
                push_text(&mut text, ",\"typ\":\"JWT\"");
            },
            None => {
                assert(text@ + Seq::<u8>::empty() =~= text@);
            },
        }
        push_text(&mut text, "}");
        assert(text@ =~= self.json());
        text
    }

    /// The kind of token.
    pub fn type_(&self) -> (kind: Option<HeaderType>)
        ensures
            kind == self.type_,
    {
        self.type_
    }
}

impl View for Claims {
    type V = ClaimSet;

    closed spec fn view(&self) -> ClaimSet {
        ClaimSet { sub: self.sub@, aud: self.aud, exp: self.exp, iat: self.iat }
    }
}

impl Claims {
    /// Claims that bind `sub` to the agreement `aud` from `iat` until `exp`.
    pub fn new(sub: String, aud: AgreementId, exp: Timestamp, iat: Timestamp) -> (claims: Self)
        ensures
            claims@ == (ClaimSet { sub: sub@, aud, exp, iat }),
    {
        Claims { sub, aud, exp, iat }
    }

    /// The subject: the account's address.
    pub fn sub(&self) -> (sub: &str)
        ensures
            sub@ == self@.sub,
    {
        self.sub.as_str()
    }

    /// The audience: the agreement that the token is good for.
    pub fn aud(&self) -> (aud: AgreementId)
        ensures
            aud == self@.aud,
    {
        self.aud
    }

    /// The time after which the token is no longer good.
    pub fn exp(&self) -> (exp: Timestamp)
        ensures
            exp == self@.exp,
    {
        self.exp
    }

    /// The time at which the token was issued.
    pub fn iat(&self) -> (iat: Timestamp)
        ensures
            iat == self@.iat,
    {
        self.iat
    }

    /// The JSON text of the claims, as bytes.
    pub fn to_json(&self) -> (text: Vec<u8>)
        ensures
            text@ == claims_json(self@),
    {
        let mut text: Vec<u8> = Vec::new();
        push_text(&mut text, "{\"sub\":");
        push_json_string(&mut text, self.sub.as_str().as_bytes());
        push_text(&mut text, ",\"aud\":");
        push_decimal(&mut text, self.aud as u64);
        push_text(&mut text, ",\"exp\":");
        push_decimal(&mut text, self.exp);
        push_text(&mut text, ",\"iat\":");
        push_decimal(&mut text, self.iat);
        push_text(&mut text, "}");
        assert(text@ =~= claims_json(self@));
        text
    }
}

/// The public key of a key pair, as `Pair::public` gives it.
pub uninterp spec fn public_key_of(keypair: &Pair) -> Seq<u8>;

/// The address that stands for a public key in an address format, as
/// `Ss58Codec::to_ss58check_with_version` writes it.
pub uninterp spec fn ss58_address(public: Seq<u8>, format: u16) -> Seq<char>;

/// Whether a signature is good for a message under a public key, as
/// `Pair::verify` for sr25519 decides it.
pub uninterp spec fn sr25519_verifies(signature: Seq<u8>, message: Seq<u8>, public: Seq<u8>) -> bool;

/// `Pair::public` and then `Ss58Codec::to_ss58check`: the account's address.
/// It is the address of the pair's public key in the format that the process
/// has set as its default, which is not known here. The address is the
/// base58 text of at most 36 bytes: one or two for the format, the 32 of the
/// key and two of a checksum. That makes at most 50 characters.
#[verifier::external_body]
fn account_address(keypair: &Pair) -> (address: String)
    ensures
        exists|format: u16| address@ == #[trigger] ss58_address(public_key_of(keypair), format),
        encode_utf8(address@).len() <= ADDRESS_LIMIT,
{
    keypair.public().to_ss58check()
}

/// `Pair::sign` for sr25519: a signature over `message`, which is 64 bytes
/// long and good for `message` under the pair's public key. The signer draws
/// a fresh nonce each time, so the bytes are not a function of the key and
/// the message.
#[verifier::external_body]
fn sign_message(keypair: &Pair, message: &[u8]) -> (signature: Vec<u8>)
    ensures
        signature@.len() == SIGNATURE_LEN,
        sr25519_verifies(signature@, message@, public_key_of(keypair)),
{
    keypair.sign(message).0.to_vec()
}

/// Whether no character of `text` is a dot.
pub open spec fn dot_free(text: Seq<char>) -> bool {
    forall|i: int| 0 <= i < text.len() ==> #[trigger] text[i] != SEPARATOR
}

/// The place of the first dot of `text` at or after `from`, or the length of
/// `text` where there is none.
pub open spec fn next_dot(text: Seq<char>, from: int) -> int
    decreases text.len() - from,
{
    if from >= text.len() {
        text.len() as int
    } else if text[from] == SEPARATOR {
        from
    } else {
        next_dot(text, from + 1)
    }
}

/// The three segments of `text`, where `text` holds exactly two dots.
pub open spec fn split_token(text: Seq<char>) -> Option<(Seq<char>, Seq<char>, Seq<char>)> {
    let first = next_dot(text, 0);
    let second = next_dot(text, first + 1);
    if first < text.len() && second < text.len() && next_dot(text, second + 1) >= text.len() {
        Some(
            (
                text.subrange(0, first),
                text.subrange(first + 1, second),
                text.subrange(second + 1, text.len() as int),
            ),
        )
    } else {
        None
    }
}

/// What the three segments of `text` decode to: the header's JSON text, the
/// claims' JSON text and the signature. There is none where `text` is not
/// three segments of well-formed base64url text.
pub open spec fn decoded_token(text: Seq<char>) -> Option<(Seq<u8>, Seq<u8>, Seq<u8>)> {
    if !vstd::utf8::is_ascii_chars(text) {
        None
    } else {
        match split_token(text) {
            None => None,
            Some((header, claims, signature)) => match (
                base64url_decoded(header),
                base64url_decoded(claims),
                base64url_decoded(signature),
            ) {
                (Some(h), Some(c), Some(s)) => Some((h, c, s)),
                _ => None,
            },
        }
    }
}

/// Whether `text` has the shape of a token: three segments with a dot
/// between them, none of them empty, each of characters of the URL-safe
/// alphabet only, and the third as long as the segment of a signature.
pub open spec fn has_token_shape(text: Seq<char>) -> bool {
    split_token(text) matches Some((header, claims, signature)) && {
        &&& header.len() > 0
        &&& claims.len() > 0
        &&& signature.len() == SIGNATURE_SEGMENT_LEN
        &&& is_base64url_text(header)
        &&& is_base64url_text(claims)
        &&& is_base64url_text(signature)
    }
}

/// Whether `text` is the token with the header `header`, the claims `claims`
/// and the signature `signature`: their three segments with a dot between
/// them, which split and decode to them again.
pub open spec fn is_token_of(
    text: Seq<char>,
    header: Seq<u8>,
    claims: Seq<u8>,
    signature: Seq<u8>,
) -> bool {
    &&& signature.len() == SIGNATURE_LEN
    &&& text == token_text(header, claims, signature)
    &&& is_segment_of(base64url(header), header)
    &&& is_segment_of(base64url(claims), claims)
    &&& is_segment_of(base64url(signature), signature)
    &&& split_token(text) == Some((base64url(header), base64url(claims), base64url(signature)))
    &&& decoded_token(text) == Some((header, claims, signature))
}

/// The message that is signed for a token: the bytes of the header segment,
/// a dot and the claims segment.
pub open spec fn signed_message(header: Seq<u8>, claims: Seq<u8>) -> Seq<u8> {
    encode_utf8(unsigned_text(header, claims))
}

/// Whether `text` is a token with the header `header` and the claims
/// `claims`, under a signature that is good for the first two segments under
/// the public key `public`.
pub open spec fn is_signed_token(
    text: Seq<char>,
    header: Seq<u8>,
    claims: Seq<u8>,
    public: Seq<u8>,
) -> bool {
    exists|signature: Seq<u8>| #[trigger]
        is_token_of(text, header, claims, signature) && sr25519_verifies(
            signature,
            signed_message(header, claims),
            public,
        )
}

/// Whether `text` is a credential over `claims`, signed under `public`: a
/// signed token under the header that every issued token carries.
pub open spec fn is_credential_of(text: Seq<char>, claims: ClaimSet, public: Seq<u8>) -> bool {
    is_signed_token(text, issued_header_json(), claims_json(claims), public)
}

/// Whether `text` is a credential of the account with the public key
/// `public` for the agreement `aud`, good from `iat` until `exp`: its subject
/// is the account's address in some address format, and it is signed under
/// the account's key.
pub open spec fn is_credential(
    text: Seq<char>,
    public: Seq<u8>,
    aud: AgreementId,
    exp: Timestamp,
    iat: Timestamp,
) -> bool {
    exists|format: u16| #[trigger]
        is_credential_of(
            text,
            ClaimSet { sub: ss58_address(public, format), aud, exp, iat },
            public,
        )
}

/// A text without dots has no dot at or after any place.
proof fn lemma_next_dot_none(text: Seq<char>, from: int)
    requires
        0 <= from <= text.len(),
        forall|i: int| from <= i < text.len() ==> #[trigger] text[i] != SEPARATOR,
    ensures
        next_dot(text, from) == text.len(),
    decreases text.len() - from,
{
    if from < text.len() {
        lemma_next_dot_none(text, from + 1);
    }
}

/// The first dot at or after `from` is at `at`, where `at` holds a dot and
/// nothing between `from` and `at` does.
proof fn lemma_next_dot_at(text: Seq<char>, from: int, at: int)
    requires
        0 <= from <= at < text.len(),
        text[at] == SEPARATOR,
        forall|i: int| from <= i < at ==> #[trigger] text[i] != SEPARATOR,
    ensures
        next_dot(text, from) == at,
    decreases at - from,
{
    if from < at {
        lemma_next_dot_at(text, from + 1, at);
    }
}

/// Three segments without dots, joined by dots, split into the same three
/// segments again.
pub proof fn lemma_split_joined(first: Seq<char>, second: Seq<char>, third: Seq<char>)
    requires
        dot_free(first),
        dot_free(second),
        dot_free(third),
    ensures
        split_token(first + seq![SEPARATOR] + second + seq![SEPARATOR] + third) == Some(
            (first, second, third),
        ),
{
    let text = first + seq![SEPARATOR] + second + seq![SEPARATOR] + third;
    let i = first.len() as int;
    let j = i + 1 + second.len();
    assert forall|k: int| 0 <= k < i implies #[trigger] text[k] != SEPARATOR by {
        assert(text[k] == first[k]);
    }
    assert(text[i] == SEPARATOR);
    lemma_next_dot_at(text, 0, i);
    assert forall|k: int| i + 1 <= k < j implies #[trigger] text[k] != SEPARATOR by {
        assert(text[k] == second[k - i - 1]);
    }
    assert(text[j] == SEPARATOR);
    lemma_next_dot_at(text, i + 1, j);
    assert forall|k: int| j + 1 <= k < text.len() implies #[trigger] text[k] != SEPARATOR by {
        assert(text[k] == third[k - j - 1]);
    }
    lemma_next_dot_none(text, j + 1);
    assert(text.subrange(0, i) =~= first);
    assert(text.subrange(i + 1, j) =~= second);
    assert(text.subrange(j + 1, text.len() as int) =~= third);
}

/// A token whose three segments are well-formed base64url text decodes to
/// the header, the claims and the signature that it was made of.
pub proof fn lemma_token_decodes(header: Seq<u8>, claims: Seq<u8>, signature: Seq<u8>)
    requires
        is_segment_of(base64url(header), header),
        is_segment_of(base64url(claims), claims),
        is_segment_of(base64url(signature), signature),
    ensures
        decoded_token(token_text(header, claims, signature)) == Some((header, claims, signature)),
{
    let text = token_text(header, claims, signature);
    lemma_split_joined(base64url(header), base64url(claims), base64url(signature));
    assert forall|i: int| 0 <= i < text.len() implies '\0' <= #[trigger] text[i] <= '\u{7f}' by {
        let h = base64url(header);
        let c = base64url(claims);
        if i < h.len() {
            assert(text[i] == h[i]);
        } else if i == h.len() {
        } else if i < h.len() + 1 + c.len() {
            assert(text[i] == c[i - h.len() - 1]);
        } else if i == h.len() + 1 + c.len() {
        } else {
            assert(text[i] == base64url(signature)[i - h.len() - c.len() - 2]);
        }
    }
}

/// The text that is signed tells the claims: two sets of claims whose
/// segments are well-formed base64url text, and that give the same text to
/// sign under the same header, are the same claims.
pub proof fn lemma_signed_text_tells_claims(header: Seq<u8>, first: ClaimSet, second: ClaimSet)
    requires
        is_segment_of(base64url(claims_json(first)), claims_json(first)),
        is_segment_of(base64url(claims_json(second)), claims_json(second)),
        unsigned_text(header, claims_json(first)) == unsigned_text(header, claims_json(second)),
    ensures
        first.sub == second.sub,
        first.aud == second.aud,
        first.exp == second.exp,
        first.iat == second.iat,
{
    let start = base64url(header) + seq![SEPARATOR];
    let one = base64url(claims_json(first));
    let other = base64url(claims_json(second));
    assert((start + one).len() == start.len() + one.len());
    assert((start + other).len() == start.len() + other.len());
    assert(one =~= (start + one).subrange(start.len() as int, (start + one).len() as int));
    assert(other =~= (start + other).subrange(start.len() as int, (start + other).len() as int));
    lemma_claims_json_injective(first, second);
}

/// A text made of three well-formed segments is the token of what the
/// segments hold.
proof fn lemma_token_of(text: Seq<char>, header: Seq<u8>, claims: Seq<u8>, signature: Seq<u8>)
    requires
        signature.len() == SIGNATURE_LEN,
        is_segment_of(base64url(header), header),
        is_segment_of(base64url(claims), claims),
        is_segment_of(base64url(signature), signature),
        text == base64url(header) + seq![SEPARATOR] + base64url(claims) + seq![SEPARATOR]
            + base64url(signature),
    ensures
        is_token_of(text, header, claims, signature),
{
    lemma_token_decodes(header, claims, signature);
    lemma_split_joined(base64url(header), base64url(claims), base64url(signature));
}

/// A token over a header and claims that are not empty has the shape of a
/// token: no segment is empty, and the third has 86 characters.
pub proof fn lemma_token_shape(
    text: Seq<char>,
    header: Seq<u8>,
    claims: Seq<u8>,
    signature: Seq<u8>,
)
    requires
        is_token_of(text, header, claims, signature),
        header.len() > 0,
        claims.len() > 0,
    ensures
        has_token_shape(text),
{
}

/// Two tokens over the same header and claims have the same first two
/// segments, whatever their signatures are: only the third segment is fresh
/// each time.
pub proof fn lemma_tokens_agree_before_signature(
    first: Seq<char>,
    second: Seq<char>,
    header: Seq<u8>,
    claims: Seq<u8>,
    one: Seq<u8>,
    other: Seq<u8>,
)
    requires
        is_token_of(first, header, claims, one),
        is_token_of(second, header, claims, other),
    ensures
        split_token(first) == Some((base64url(header), base64url(claims), base64url(one))),
        split_token(second) == Some((base64url(header), base64url(claims), base64url(other))),
        one == other ==> first == second,
{
}

/// `first`, a dot, `second`.
pub fn join(first: &str, second: &str) -> (text: String)
    ensures
        text@ == first@ + seq![SEPARATOR] + second@,
{
    let mut text = first.to_owned();
    text.push(SEPARATOR);
    text.append(second);
    assert(text@ =~= first@ + seq![SEPARATOR] + second@);
    text
}

/// The token with the segments `header` and `claims` and the signature
/// `signature`: the two segments and the base64url text of the signature,
/// with a dot between them. There is none where the signature is too long
/// to write as a segment.
pub fn signed_token(header: &str, claims: &str, signature: &[u8]) -> (token: Result<
    String,
    SigningError,
>)
    ensures
        token is Ok <==> encodable_len(signature@.len()),
        token matches Ok(text) ==> {
            &&& text@ == header@ + seq![SEPARATOR] + claims@ + seq![SEPARATOR] + base64url(
                signature@,
            )
            &&& is_segment_of(base64url(signature@), signature@)
        },
        token matches Err(error) ==> error == SigningError::SegmentTooLong,
{
    match encode(signature) {
        Some(segment) => {
            let unsigned = join(header, claims);
            Ok(join(unsigned.as_str(), segment.as_str()))
        },
        None => Err(SigningError::SegmentTooLong),
    }
}

/// Signs tokens with an account's key.
pub struct TokenSigner {
    /// The account's key pair.
    pub keypair: Pair,
}

impl TokenSigner {
    /// A signer that holds `keypair`.
    pub fn new(keypair: Pair) -> (signer: Self)
        ensures
            signer.keypair == keypair,
    {
        TokenSigner { keypair }
    }

    /// The signature for a token with the segments `header` and `claims`: 64
    /// bytes that are good, under the signer's public key, for the bytes of
    /// `header`, a dot and `claims`.
    pub fn signature(&self, header: &str, claims: &str) -> (raw: Vec<u8>)
        ensures
            raw@.len() == SIGNATURE_LEN,
            sr25519_verifies(
                raw@,
                encode_utf8(header@ + seq![SEPARATOR] + claims@),
                public_key_of(&self.keypair),
            ),
    {
        let message = join(header, claims);
        sign_message(&self.keypair, message.as_str().as_bytes())
    }

    /// The signature segment for a token with the segments `header` and
    /// `claims`: the 86 characters of the base64url text of a signature that
    /// is good, under the signer's public key, for the bytes of `header`, a
    /// dot and `claims`.
    pub fn sign(&self, header: &str, claims: &str) -> (segment: String)
        ensures
            segment@.len() == SIGNATURE_SEGMENT_LEN,
            exists|raw: Seq<u8>|
                {
                    &&& raw.len() == SIGNATURE_LEN
                    &&& #[trigger] is_segment_of(segment@, raw)
                    &&& sr25519_verifies(
                        raw,
                        encode_utf8(header@ + seq![SEPARATOR] + claims@),
                        public_key_of(&self.keypair),
                    )
                },
    {
        let raw = self.signature(header, claims);
        let segment = encode_unpadded(raw.as_slice());
        assert(is_segment_of(segment@, raw@));
        segment
    }
}

/// The token that `signer` issues over `header` and `claims`: it is signed
/// under the signer's key over its first two segments. There is none where
/// the header or the claims are too long to write as a segment, which is not
/// so where the name of the algorithm and the subject are no longer than
/// `TEXT_LIMIT`.
pub fn issue_token(signer: &TokenSigner, header: &Header, claims: &Claims) -> (token: Result<
    String,
    SigningError,
>)
    ensures
        token is Ok <==> encodable_len(header.json().len()) && encodable_len(
            claims_json(claims@).len(),
        ),
        token matches Ok(text) ==> {
            &&& is_signed_token(
                text@,
                header.json(),
                claims_json(claims@),
                public_key_of(&signer.keypair),
            )
            &&& has_token_shape(text@)
        },
        token matches Err(e) ==> e == SigningError::SegmentTooLong,
        encode_utf8(header.algorithm@).len() <= TEXT_LIMIT && encode_utf8(claims@.sub).len()
            <= TEXT_LIMIT ==> token is Ok,
{
    proof {
        if encode_utf8(header.algorithm@).len() <= TEXT_LIMIT && encode_utf8(claims@.sub).len()
            <= TEXT_LIMIT {
            lemma_short_texts_encodable(header.algorithm@, header.type_, claims@);
        }
    }
    let header_bytes = header.to_json();
    let claims_bytes = claims.to_json();
    let header_segment = match encode(header_bytes.as_slice()) {
        Some(segment) => segment,
        None => {
            return Err(SigningError::SegmentTooLong);
        },
    };
    let claims_segment = match encode(claims_bytes.as_slice()) {
        Some(segment) => segment,
        None => {
            return Err(SigningError::SegmentTooLong);
        },
    };
    let raw = signer.signature(header_segment.as_str(), claims_segment.as_str());
    let token = signed_token(header_segment.as_str(), claims_segment.as_str(), raw.as_slice());
    proof {
        lemma_fixed_pieces();
        if token is Ok {
            let text = token->Ok_0@;
            lemma_token_of(text, header.json(), claims_json(claims@), raw@);
            lemma_token_shape(text, header.json(), claims_json(claims@), raw@);
            assert(is_signed_token(
                text,
                header.json(),
                claims_json(claims@),
                public_key_of(&signer.keypair),
            ));
        }
    }
    token
}

/// A fresh credential for the account of `keypair`: a token that binds the
/// account's address to `agreement` from `issued` until `expiration`, signed
/// with the account's key. There always is one.
pub fn generate_token(
    keypair: Pair,
    agreement: AgreementId,
    issued: Timestamp,
    expiration: Timestamp,
) -> (token: Result<String, SigningError>)
    ensures
        token is Ok,
        token matches Ok(text) ==> {
            &&& is_credential(text@, public_key_of(&keypair), agreement, expiration, issued)
            &&& has_token_shape(text@)
        },
{
    let header = Header {
        algorithm: ALGORITHM.to_owned(),
        type_: Some(HeaderType::JsonWebToken),
    };
    let address = account_address(&keypair);
    let ghost format = choose|format: u16|
        address@ == #[trigger] ss58_address(public_key_of(&keypair), format);
    let claims = Claims::new(address, agreement, expiration, issued);
    let token = issue_token(&TokenSigner::new(keypair), &header, &claims);
    proof {
        lemma_issued_header_encodable();
        if token is Ok {
            assert(is_credential_of(
                token->Ok_0@,
                ClaimSet {
                    sub: ss58_address(public_key_of(&keypair), format),
                    aud: agreement,
                    exp: expiration,
                    iat: issued,
                },
                public_key_of(&keypair),
            ));
        }
    }
    token
}

/// The place of the first dot of `text` at or after `from`, or the length of
/// `text` where there is none.
fn find_dot(text: &str, from: usize) -> (at: usize)
    requires
        text.is_ascii(),
        from <= text@.len(),
    ensures
        at == next_dot(text@, from as int),
        from <= at <= text@.len(),
{
    let bytes = text.as_bytes();
    proof {
        is_ascii_spec_bytes(text);
    }
    let mut at: usize = from;
    while at < bytes.len() && bytes[at] != SEPARATOR_BYTE
        invariant
            text.is_ascii(),
            bytes@ == text.spec_bytes(),
            bytes@.len() == text@.len(),
            from <= at <= text@.len(),
            next_dot(text@, from as int) == next_dot(text@, at as int),
        decreases bytes.len() - at,
    {
        assert(text@[at as int] as u8 == bytes@[at as int]);
        at = at + 1;
    }
    proof {
        if at < bytes.len() {
            assert(text@[at as int] as u8 == bytes@[at as int]);
        }
    }
    at
}

/// What the three segments of `token` decode to: the header's JSON text, the
/// claims' JSON text and the signature. There is none where `token` is not
/// three segments of well-formed base64url text.
pub fn decode_token(token: &str) -> (parts: Option<(Vec<u8>, Vec<u8>, Vec<u8>)>)
    ensures
        match parts {
            Some((header, claims, signature)) => decoded_token(token@) == Some(
                (header@, claims@, signature@),
            ),
            None => decoded_token(token@) is None,
        },
{
    if !token.is_ascii() {
        return None;
    }
    let end = token.as_bytes().len();
    proof {
        is_ascii_spec_bytes(token);
    }
    let first = find_dot(token, 0);
    if first >= end {
        return None;
    }
    let second = find_dot(token, first + 1);
    if second >= end {
        return None;
    }
    let third = find_dot(token, second + 1);
    if third < end {
        return None;
    }
    let header = decode_unpadded(token.substring_ascii(0, first));
    let claims = decode_unpadded(token.substring_ascii(first + 1, second));
    let signature = decode_unpadded(token.substring_ascii(second + 1, end));
    match (header, claims, signature) {
        (Some(header), Some(claims), Some(signature)) => Some((header, claims, signature)),
        _ => None,
    }
}

} // verus!
