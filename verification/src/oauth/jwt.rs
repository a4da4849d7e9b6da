//! Claims read out of an access token that is a JWT.
//!
//! The signature is not tested: the provider that issued the token has signed it.
//! A token that is no JWT has no claims.
use vstd::prelude::*;

use crate::encoding::{url_decode, url_decoded};
use crate::json;
use crate::json::{member, parsed_json, Json, JsonView};
use crate::text::{
    drop_trailing, lemma_split_join, lemma_split_single, split, split_spec, texts, trim_end_char,
};

verus! {

/// The payload's member that holds the claims of this issuer.
pub const OPENAI_AUTH_NAMESPACE: &'static str = "https://api.openai.com/auth";

/// The claim that names the account.
pub const CHATGPT_ACCOUNT_ID_CLAIM: &'static str = "chatgpt_account_id";

/// The payload of a token: three parts separated by dots, the second of them a
/// JSON text in base64 for URLs.
pub open spec fn jwt_payload(token: Seq<char>) -> Option<JsonView> {
    let parts = split_spec(token, '.');
    if parts.len() != 3 {
        None
    } else {
        match url_decoded(drop_trailing(parts[1], '=')) {
            None => None,
            Some(bytes) => match parsed_json(bytes) {
                Ok(j) => Some(j),
                Err(_) => None,
            },
        }
    }
}

/// The payload of a token, or nothing where the token is no JWT.
pub fn decode_jwt_payload(token: &str) -> (r: Option<Json>)
    ensures
        json::opt_json(r) == jwt_payload(token@),
{
    let parts = split(token, '.');
    proof {
        assert(texts(parts@).len() == parts@.len());
    }
    if parts.len() != 3 {
        return None;
    }
    assert(texts(parts@)[1] == parts@[1]@);
    let payload = trim_end_char(parts[1].as_str(), '=');
    match url_decode(payload.as_str()) {
        None => None,
        Some(bytes) => match json::parse(bytes.as_slice()) {
            Ok(j) => Some(j),
            Err(_) => None,
        },
    }
}

/// The account in a token's payload, where it is a text that is not empty.
pub open spec fn account_in(payload: JsonView) -> Option<Seq<char>> {
    match member(payload, OPENAI_AUTH_NAMESPACE@) {
        None => None,
        Some(auth) => match member(auth, CHATGPT_ACCOUNT_ID_CLAIM@) {
            Some(JsonView::Str(id)) => if id.len() == 0 {
                None
            } else {
                Some(id)
            },
            _ => None,
        },
    }
}

/// The account in a payload.
pub fn account_id_in(payload: &Json) -> (r: Option<String>)
    ensures
        crate::text::opt_text(r) == account_in(payload@),
{
    let auth = match payload.get(OPENAI_AUTH_NAMESPACE) {
        Some(a) => a,
        None => {
            return None;
        },
    };
    let claim = match auth.get(CHATGPT_ACCOUNT_ID_CLAIM) {
        Some(c) => c,
        None => {
            return None;
        },
    };
    match claim.as_text() {
        None => None,
        Some(id) => {
            proof {
                reveal_strlit("");
                assert(id@.len() == 0 ==> id@ =~= ""@);
            }
            if crate::text::same(id, "") {
                None
            } else {
                Some(id.to_string())
            }
        },
    }
}

/// The account that a token names.
pub open spec fn account_of(token: Seq<char>) -> Option<Seq<char>> {
    match jwt_payload(token) {
        None => None,
        Some(payload) => account_in(payload),
    }
}

/// The account that an access token names, or nothing where the token is no JWT
/// or names none.
pub fn extract_chatgpt_account_id(access_token: &str) -> (r: Option<String>)
    ensures
        crate::text::opt_text(r) == account_of(access_token@),
{
    match decode_jwt_payload(access_token) {
        None => None,
        Some(payload) => account_id_in(&payload),
    }
}

/// The payload of a token of three parts is the JSON text that its middle part writes in
/// base64, padding or not; a token of fewer or more parts has none.
pub proof fn law_payload_is_the_middle_part(
    head: Seq<char>,
    body: Seq<char>,
    tail: Seq<char>,
    bytes: Seq<u8>,
    j: JsonView,
)
    requires
        !head.contains('.'),
        !body.contains('.'),
        !tail.contains('.'),
    ensures
        ({
            let token = head + seq!['.'] + (body + seq!['.'] + tail);
            &&& url_decoded(drop_trailing(body, '=')) == Some(bytes) && parsed_json(bytes) == Ok::<
                JsonView,
                Seq<char>,
            >(j) ==> jwt_payload(token) == Some(j)
            &&& url_decoded(drop_trailing(body, '=')) is None ==> jwt_payload(token) is None
        }),
        jwt_payload(head) is None,
        jwt_payload(head + seq!['.'] + body) is None,
{
    lemma_split_single(head, '.');
    lemma_split_single(body, '.');
    lemma_split_single(tail, '.');
    lemma_split_join(body, tail, '.');
    lemma_split_join(head, body + seq!['.'] + tail, '.');
    lemma_split_join(head, body, '.');
    let token = head + seq!['.'] + (body + seq!['.'] + tail);
    assert(split_spec(token, '.') =~= seq![head, body, tail]);
    assert(split_spec(head + seq!['.'] + body, '.') =~= seq![head, body]);
}

/// The account is the claim of that name among the claims of this issuer, where it is a
/// text that is not empty.
pub proof fn law_account_is_the_claim(payload: JsonView, auth: JsonView, id: Seq<char>)
    requires
        member(payload, "https://api.openai.com/auth"@) == Some(auth),
    ensures
        member(auth, "chatgpt_account_id"@) == Some(JsonView::Str(id)) && id.len() > 0
            ==> account_in(payload) == Some(id),
        member(auth, "chatgpt_account_id"@) == Some(JsonView::Str(id)) && id.len() == 0
            ==> account_in(payload) is None,
        member(auth, "chatgpt_account_id"@) is None ==> account_in(payload) is None,
{
}

/// A token without a payload names no account, and one without the issuer's claims neither.
pub proof fn law_other_tokens_name_no_account(token: Seq<char>)
    ensures
        jwt_payload(token) is None ==> account_of(token) is None,
        jwt_payload(token) matches Some(p) ==> account_of(token) == account_in(p),
        (jwt_payload(token) matches Some(p) && member(p, "https://api.openai.com/auth"@) is None)
            ==> account_of(token) is None,
{
}

} // verus!
