//! The messages that relays and streamers exchange.
use base64::engine::general_purpose;
use base64::Engine;
use sha2::{Digest, Sha256};
use vstd::prelude::*;
use vstd::utf8::encode_utf8;

verus! {

/// The protocol version that a streamer announces.
pub const API_VERSION: &'static str = "1.0";

/// A value whose presence is all it says.
#[derive(Clone, Copy, PartialEq, Eq, Structural, Debug)]
pub struct Present {}

/// How an identification or a request ended.
#[derive(Clone, Copy, PartialEq, Eq, Structural, Debug)]
pub enum MoblinkResult {
    Okay(Present),
    WrongPassword(Present),
}

/// What a relay has to answer with its password.
#[derive(Debug)]
pub struct Authentication {
    pub challenge: String,
    pub salt: String,
}

/// The first message of a streamer.
#[derive(Debug)]
pub struct Hello {
    pub api_version: String,
    pub authentication: Authentication,
}

/// The streamer's verdict on an identification.
#[derive(Clone, Copy, PartialEq, Eq, Structural, Debug)]
pub struct Identified {
    pub result: MoblinkResult,
}

/// Asks a relay to open a tunnel to a destination.
#[derive(Debug)]
pub struct StartTunnelRequest {
    pub address: String,
    pub port: u16,
}

/// What a streamer requests.
#[derive(Debug)]
pub enum MessageRequestData {
    StartTunnel(StartTunnelRequest),
    Status(Present),
}

/// A numbered request.
#[derive(Debug)]
pub struct MessageRequest {
    pub id: u32,
    pub data: MessageRequestData,
}

/// The port that a relay receives the streamer's packets on.
#[derive(Clone, Copy, PartialEq, Eq, Structural, Debug)]
pub struct StartTunnelResponseData {
    pub port: u16,
}

/// The state of a relay.
#[derive(Clone, Copy, PartialEq, Eq, Structural, Debug)]
pub struct StatusResponseData {
    pub battery_percentage: Option<i32>,
}

/// What a relay responds.
#[derive(Clone, Copy, PartialEq, Eq, Structural, Debug)]
pub enum ResponseData {
    StartTunnel(StartTunnelResponseData),
    Status(StatusResponseData),
}

/// The response to the request with the same number.
#[derive(Clone, Copy, PartialEq, Eq, Structural, Debug)]
pub struct MessageResponse {
    pub id: u32,
    pub result: MoblinkResult,
    pub data: ResponseData,
}

impl MessageRequest {
    /// The response that grants this request.
    pub fn to_ok_response(&self, data: ResponseData) -> (r: MessageResponse)
        ensures
            r == ok_response(self.id, data),
    {
        MessageResponse { id: self.id, result: MoblinkResult::Okay(Present {  }), data }
    }
}

/// The response that grants the request with a number.
pub open spec fn ok_response(id: u32, data: ResponseData) -> MessageResponse {
    MessageResponse { id, result: MoblinkResult::Okay(Present {  }), data }
}

/// Who a relay is, and the proof that it knows the password.
#[derive(Debug)]
pub struct Identify {
    pub id: String,
    pub name: String,
    pub authentication: String,
}

/// What a streamer sends.
#[derive(Debug)]
pub enum MessageToRelay {
    Hello(Hello),
    Identified(Identified),
    Request(MessageRequest),
}

/// What a relay sends.
#[derive(Debug)]
pub enum MessageToStreamer {
    Identify(Identify),
    Response(MessageResponse),
}

/// The SHA-256 digest of some bytes.
pub uninterp spec fn sha256_digest(data: Seq<u8>) -> Seq<u8>;

/// The standard base64 notation of some bytes.
pub uninterp spec fn base64_text(data: Seq<u8>) -> Seq<char>;

/// `Sha256::digest` of the sha2 crate. Its result is a function of the bytes
/// alone, and is 32 bytes long.
#[verifier::external_body]
fn sha256(data: &[u8]) -> (r: Vec<u8>)
    ensures
        r@ == sha256_digest(data@),
        r@.len() == 32,
{
    Sha256::digest(data).to_vec()
}

/// `Engine::encode` of the base64 crate with the standard alphabet and
/// padding. Its result is a function of the bytes alone, and has four
/// characters for every three bytes begun. It panics where that length
/// overflows.
#[verifier::external_body]
fn base64_encode(data: &[u8]) -> (r: String)
    requires
        data@.len() / 3 * 4 + 4 <= usize::MAX,
    ensures
        r@ == base64_text(data@),
        r@.len() == (data@.len() + 2) / 3 * 4,
{
    general_purpose::STANDARD.encode(data)
}

/// The answer to a challenge: the password is hashed with the salt, and the
/// base64 notation of the hash is hashed with the challenge.
pub open spec fn authentication_text(
    password: Seq<char>,
    salt: Seq<char>,
    challenge: Seq<char>,
) -> Seq<char> {
    let secret = base64_text(sha256_digest(encode_utf8(password + salt)));
    base64_text(sha256_digest(encode_utf8(secret + challenge)))
}

/// Answers a challenge with a password. The answer is 44 characters long.
pub fn calculate_authentication(password: &str, salt: &str, challenge: &str) -> (r: String)
    ensures
        r@ == authentication_text(password@, salt@, challenge@),
        r@ == base64_text(
            sha256_digest(
                encode_utf8(
                    base64_text(sha256_digest(encode_utf8(password@ + salt@))) + challenge@,
                ),
            ),
        ),
        r@.len() == 44,
{
    let mut salted: String = password.to_owned();
    salted.append(salt);
    let hash1: Vec<u8> = sha256(salted.as_str().as_bytes());
    let mut answer: String = base64_encode(hash1.as_slice());
    answer.append(challenge);
    let hash2: Vec<u8> = sha256(answer.as_str().as_bytes());
    base64_encode(hash2.as_slice())
}

/// The answer to a challenge, step by step: the whole password and the whole
/// salt are hashed, and the base64 notation of that is hashed with the whole
/// challenge. All texts are taken in UTF-8, however long they are.
pub proof fn law_answer_to_a_challenge(
    password: Seq<char>,
    salt: Seq<char>,
    challenge: Seq<char>,
    secret: Seq<char>,
)
    requires
        secret == base64_text(sha256_digest(encode_utf8(password + salt))),
    ensures
        authentication_text(password, salt, challenge) == base64_text(
            sha256_digest(encode_utf8(secret + challenge)),
        ),
{
}

/// Only where the password ends and the salt begins does not matter: two
/// passwords and salts that make the same text give the same answer.
pub proof fn law_password_and_salt_are_joined(
    first: Seq<char>,
    second: Seq<char>,
    third: Seq<char>,
    challenge: Seq<char>,
)
    ensures
        authentication_text(first + second, third, challenge) == authentication_text(
            first,
            second + third,
            challenge,
        ),
{
    assert((first + second) + third =~= first + (second + third));
}

/// The response that grants a request has its number, says that all is well and
/// carries the data.
pub proof fn law_granting_response(id: u32, data: ResponseData)
    ensures
        ok_response(id, data).id == id,
        ok_response(id, data).result is Okay,
        ok_response(id, data).data == data,
{
}

} // verus!
