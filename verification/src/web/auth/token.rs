//! Signed authentication tokens: the claims they carry, their issuance and
//! their verification.

use vstd::prelude::*;
use vstd::string::StringExecFns;

use crate::interop::{json_of_value, value_of_json};
use crate::json::{
    decode_list, encode_list, fields_view, lemma_fields_view, lemma_list_round_trip,
    lemma_obj_lookup_at, list_from_json, list_to_json, obj_get, obj_lookup, views_of, JsonCodec,
    JsonVal, JsonValue,
};
use crate::text::{clone_strings, views};

verus! {

#[verifier::external_type_specification]
#[verifier::external_body]
pub struct ExJwtError(jsonwebtoken::errors::Error);

/// The claims a token carries: the user, the roles, and the expiry time.
pub struct TokenClaims {
    pub user_id: String,
    pub roles: Vec<String>,
    pub exp: i64,
}

/// The mathematical content of a `TokenClaims`.
pub struct TokenClaimsV {
    pub user_id: Seq<char>,
    pub roles: Seq<Seq<char>>,
    pub exp: i64,
}

impl View for TokenClaims {
    type V = TokenClaimsV;

    open spec fn view(&self) -> TokenClaimsV {
        TokenClaimsV { user_id: self.user_id@, roles: views(self.roles@), exp: self.exp }
    }
}

impl JsonCodec for TokenClaims {
    open spec fn encode_spec(v: TokenClaimsV) -> JsonVal {
        JsonVal::Obj(
            seq![
                ("user_id"@, JsonVal::Str(v.user_id)),
                ("roles"@, JsonVal::Arr(encode_list::<String>(v.roles))),
                ("exp"@, JsonVal::Int(v.exp as int)),
            ],
        )
    }

    open spec fn decode_spec(j: JsonVal) -> Option<TokenClaimsV> {
        match j {
            JsonVal::Obj(fields) => match (
                obj_lookup(fields, "user_id"@),
                obj_lookup(fields, "roles"@),
                obj_lookup(fields, "exp"@),
            ) {
                (Some(JsonVal::Str(user_id)), Some(JsonVal::Arr(roles)), Some(JsonVal::Int(exp)))
                    => match decode_list::<String>(roles) {
                    Some(roles) => if i64::MIN <= exp <= i64::MAX {
                        Some(TokenClaimsV { user_id, roles, exp: exp as i64 })
                    } else {
                        None
                    },
                    None => None,
                },
                _ => None,
            },
            _ => None,
        }
    }

    proof fn lemma_codec_round_trip(v: TokenClaimsV) {
        reveal_strlit("user_id");
        reveal_strlit("roles");
        reveal_strlit("exp");
        let fields = seq![
            ("user_id"@, JsonVal::Str(v.user_id)),
            ("roles"@, JsonVal::Arr(encode_list::<String>(v.roles))),
            ("exp"@, JsonVal::Int(v.exp as int)),
        ];
        assert("user_id"@ != "roles"@) by {
            assert("user_id"@.len() != "roles"@.len());
        }
        assert("user_id"@ != "exp"@) by {
            assert("user_id"@.len() != "exp"@.len());
        }
        assert("roles"@ != "exp"@) by {
            assert("roles"@.len() != "exp"@.len());
        }
        lemma_obj_lookup_at(fields, 0);
        lemma_obj_lookup_at(fields, 1);
        lemma_obj_lookup_at(fields, 2);
        lemma_list_round_trip::<String>(v.roles);
    }

    fn to_json(&self) -> (j: JsonValue) {
        let mut fields: Vec<(String, JsonValue)> = Vec::new();
        fields.push(("user_id".to_owned(), JsonValue::Str(self.user_id.clone())));
        fields.push(("roles".to_owned(), JsonValue::Arr(list_to_json(&self.roles))));
        fields.push(("exp".to_owned(), JsonValue::Int(self.exp)));
        proof {
            lemma_fields_view(fields@);
            assert(views_of(self.roles@) =~= views(self.roles@));
            assert(fields_view(fields@) =~= seq![
                ("user_id"@, JsonVal::Str(self.user_id@)),
                ("roles"@, JsonVal::Arr(encode_list::<String>(views(self.roles@)))),
                ("exp"@, JsonVal::Int(self.exp as int)),
            ]);
        }
        JsonValue::Obj(fields)
    }

    fn from_json(j: &JsonValue) -> (r: Option<TokenClaims>) {
        match j {
            JsonValue::Obj(fields) => {
                let user_id = obj_get(fields, "user_id");
                let roles = obj_get(fields, "roles");
                let exp = obj_get(fields, "exp");
                match (user_id, roles, exp) {
                    (
                        Some(JsonValue::Str(user_id)),
                        Some(JsonValue::Arr(roles)),
                        Some(JsonValue::Int(exp)),
                    ) => match list_from_json::<String>(roles) {
                        Some(roles) => {
                            let c = TokenClaims { user_id: user_id.clone(), roles, exp: *exp };
                            proof {
                                assert(views(c.roles@) =~= views_of(c.roles@));
                            }
                            Some(c)
                        },
                        None => None,
                    },
                    _ => None,
                }
            },
            _ => None,
        }
    }
}

/// What signing claims yields: deterministic in the claims and the secret,
/// since the default header pins the HS256 algorithm.
pub uninterp spec fn token_of(claims: JsonVal, secret: Seq<char>) -> Seq<char>;

/// Relies on jsonwebtoken::encode with the default header and a secret-based
/// key: signing is a function of the claims and the secret alone, named
/// `token_of`. The call cannot fail here, so the unwrap cannot panic: the
/// secret key's family matches the default header's HS256, serializing a
/// JSON value never errors, and HMAC signing returns a signature
/// unconditionally.
#[verifier::external_body]
fn encode_token(claims: &JsonValue, secret: &str) -> (t: String)
    ensures
        t@ == token_of(claims@, secret@),
{
    jsonwebtoken::encode(
        &jsonwebtoken::Header::default(),
        &value_of_json(claims),
        &jsonwebtoken::EncodingKey::from_secret(secret.as_bytes()),
    ).unwrap()
}

/// Relies on jsonwebtoken::decode with the default validation: the claims
/// come back only for a token signed with the secret and not yet expired.
/// The outcome depends on the clock, so nothing is assumed of it.
#[verifier::external_body]
fn decode_token(token: &str, secret: &str) -> Result<JsonValue, jsonwebtoken::errors::Error> {
    let data = jsonwebtoken::decode::<serde_json::Value>(
        token,
        &jsonwebtoken::DecodingKey::from_secret(secret.as_bytes()),
        &jsonwebtoken::Validation::default(),
    )?;
    Ok(json_of_value(data.claims))
}

/// Relies on chrono's Utc::now: the clock decides, so nothing is assumed.
#[verifier::external_body]
fn now_timestamp() -> i64 {
    chrono::Utc::now().timestamp()
}

/// Issues a token for the user and roles, expiring after the validity: the
/// token signs exactly the claims of this user, for some expiry time read
/// from the clock.
pub fn create_token(user_id: &str, roles: &Vec<String>, secret: &str, validity_in_hours: i64) -> (t:
    String)
    ensures
        exists|exp: i64|
            t@ == token_of(
                #[trigger] TokenClaims::encode_spec(
                    TokenClaimsV { user_id: user_id@, roles: views(roles@), exp },
                ),
                secret@,
            ),
{
    let now = now_timestamp();
    let hours_secs = match validity_in_hours.checked_mul(3600) {
        Some(v) => v,
        None => i64::MAX,
    };
    let exp = match now.checked_add(hours_secs) {
        Some(v) => v,
        None => i64::MAX,
    };
    let claims = TokenClaims { user_id: user_id.to_owned(), roles: clone_strings(roles), exp };
    let claims_value = claims.to_json();
    let t = encode_token(&claims_value, secret);
    proof {
        assert(claims@ == TokenClaimsV { user_id: user_id@, roles: views(roles@), exp });
    }
    t
}

/// Verifies a token against the secret: the carried claims when the token
/// is valid and current, the invalid-token error otherwise. The clock takes
/// part, so which tokens verify is not pinned here.
pub fn verify_token(token: &str, secret: &str) -> (r: Result<TokenClaims, String>)
    ensures
        r is Err ==> r->Err_0@ == "Invalid token"@,
{
    match decode_token(token, secret) {
        Ok(v) => match TokenClaims::from_json(&v) {
            Some(claims) => Ok(claims),
            None => Err("Invalid token".to_owned()),
        },
        Err(_) => Err("Invalid token".to_owned()),
    }
}

} // verus!
