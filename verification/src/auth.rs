//! Tenant resolution from a request's identity token.
//!
//! The acting tenant is always the one taken from the verified
//! identity token, never a client-supplied value alone.  The token's
//! payload segment is base64url-decoded and its claim fields read out
//! of the JSON object; both outside calls sit behind trusted wrappers
//! whose results are functions of the input alone, and everything
//! around them — bearer-prefix handling, segment splitting, claim
//! selection — is verified.

use vstd::prelude::*;
use base64::Engine as _;
use crate::errors::{ApiError, ApiErrV};
use crate::text::str_starts_with;

verus! {

/// The claim fields this engine reads from an identity token payload.
pub struct JwtClaims {
    pub sub: Option<String>,
    pub email: Option<String>,
    pub groups: Option<Vec<String>>,
    pub tenant_id: Option<String>,
    pub custom_tenant_id: Option<String>,
}

/// The mathematical value of a claim set.
pub struct JwtClaimsV {
    pub sub: Option<Seq<char>>,
    pub email: Option<Seq<char>>,
    pub groups: Option<Seq<Seq<char>>>,
    pub tenant_id: Option<Seq<char>>,
    pub custom_tenant_id: Option<Seq<char>>,
}

pub open spec fn opt_str_view(o: Option<String>) -> Option<Seq<char>> {
    match o {
        Some(s) => Some(s@),
        None => None,
    }
}

impl View for JwtClaims {
    type V = JwtClaimsV;

    open spec fn view(&self) -> JwtClaimsV {
        JwtClaimsV {
            sub: opt_str_view(self.sub),
            email: opt_str_view(self.email),
            groups: match self.groups {
                Some(g) => Some(g@.map_values(|s: String| s@)),
                None => None,
            },
            tenant_id: opt_str_view(self.tenant_id),
            custom_tenant_id: opt_str_view(self.custom_tenant_id),
        }
    }
}

/// A `Result` seen through the views of both sides.
pub open spec fn res_view<T: View, E: View>(r: Result<T, E>) -> Result<T::V, E::V> {
    match r {
        Ok(t) => Ok(t@),
        Err(e) => Err(e@),
    }
}

// ---------------------------------------------------------------------
// Trusted wrappers
// ---------------------------------------------------------------------

/// What base64url (no padding) decoding yields for `s`, if anything.
/// The result depends on the characters of `s` alone.
pub uninterp spec fn b64url_decoded(s: Seq<char>) -> Option<Seq<u8>>;

/// Relies on base64's `URL_SAFE_NO_PAD` engine: decodes the base64url
/// alphabet without padding, deterministically in its input.
#[verifier::external_body]
fn b64url_decode(s: &str) -> (r: Option<Vec<u8>>)
    ensures
        match r {
            Some(v) => b64url_decoded(s@) == Some(v@),
            None => b64url_decoded(s@) is None,
        },
{
    base64::engine::general_purpose::URL_SAFE_NO_PAD.decode(s).ok()
}

/// The claim fields found in a JSON object's bytes, if they parse.
/// The result depends on the bytes alone.
pub uninterp spec fn claims_of_json(bytes: Seq<u8>) -> Option<JwtClaimsV>;

/// Relies on `serde_json::from_slice` and `serde_json::Value`'s
/// accessors: parses the bytes as JSON and picks out the claim fields,
/// deterministically in its input.
#[verifier::external_body]
fn claims_from_json(bytes: &Vec<u8>) -> (r: Option<JwtClaims>)
    ensures
        match r {
            Some(c) => claims_of_json(bytes@) == Some(c@),
            None => claims_of_json(bytes@) is None,
        },
{
    let v: serde_json::Value = serde_json::from_slice(bytes).ok()?;
    let s = |k: &str| v.get(k).and_then(|x| x.as_str()).map(|x| x.to_string());
    Some(JwtClaims {
        sub: s("sub"),
        email: s("email"),
        groups: v.get("cognito:groups").and_then(|g| serde_json::from_value(g.clone()).ok()),
        tenant_id: s("tenant_id"),
        custom_tenant_id: s("custom:tenant_id"),
    })
}

// ---------------------------------------------------------------------
// Verified token handling
// ---------------------------------------------------------------------

/// The token after `Bearer `, when the header has that shape.
pub open spec fn bearer_token_of(auth: Seq<char>) -> Option<Seq<char>> {
    if "Bearer "@.is_prefix_of(auth) {
        Some(auth.skip("Bearer "@.len() as int))
    } else {
        None
    }
}

/// Takes the token out of an `Authorization: Bearer <token>` header.
pub fn extract_bearer_token(auth: &str) -> (r: Result<String, ApiError>)
    ensures
        match r {
            Ok(t) => bearer_token_of(auth@) == Some(t@),
            Err(e) => bearer_token_of(auth@) is None && e@ == ApiErrV::Validation(
                "Formato de Authorization inválido (usar 'Bearer <token>')"@,
            ),
        },
{
    let prefix = "Bearer ";
    if str_starts_with(auth, prefix) {
        let n = auth.unicode_len();
        let p = prefix.unicode_len();
        let tok = auth.substring_char(p, n);
        proof {
            assert(tok@ =~= auth@.skip("Bearer "@.len() as int));
        }
        Ok(tok.to_owned())
    } else {
        let mut m = String::new();
        m.append("Formato de Authorization inválido (usar 'Bearer <token>')");
        proof {
            assert(m@ =~= "Formato de Authorization inválido (usar 'Bearer <token>')"@);
        }
        Err(ApiError::Validation(m))
    }
}

/// Index of the first `.` in `t` at or after `i`, or `t.len()`.
pub open spec fn dot_from(t: Seq<char>, i: int) -> int
    decreases t.len() - i,
{
    if i < 0 || i >= t.len() {
        t.len() as int
    } else if t[i] == '.' {
        i
    } else {
        dot_from(t, i + 1)
    }
}

/// The token's payload segment: what stands between the first `.` and
/// the second `.` (or the end).  `None` when the token has no `.`.
pub open spec fn jwt_payload_of(t: Seq<char>) -> Option<Seq<char>> {
    let d1 = dot_from(t, 0);
    if d1 >= t.len() {
        None
    } else {
        Some(t.subrange(d1 + 1, dot_from(t, d1 + 1)))
    }
}

/// Finds the first `.` at or after `from`.
fn find_dot(t: &str, from: usize) -> (r: usize)
    requires
        from <= t@.len(),
    ensures
        r == dot_from(t@, from as int),
        from <= r <= t@.len(),
{
    let n = t.unicode_len();
    let mut i: usize = from;
    while i < n
        invariant
            from <= i <= n == t@.len(),
            dot_from(t@, from as int) == dot_from(t@, i as int),
        decreases n - i,
    {
        if t.get_char(i) == '.' {
            return i;
        }
        i += 1;
    }
    i
}

/// What claim parsing yields for a given `Authorization` header value
/// (or its absence).
pub open spec fn parse_claims_model(auth: Option<Seq<char>>) -> Result<JwtClaimsV, ApiErrV> {
    match auth {
        None => Err(ApiErrV::Validation("Falta header Authorization"@)),
        Some(a) => match bearer_token_of(a) {
            None => Err(ApiErrV::Validation(
                "Formato de Authorization inválido (usar 'Bearer <token>')"@,
            )),
            Some(tok) => match jwt_payload_of(tok) {
                None => Err(ApiErrV::Validation("JWT malformado"@)),
                Some(payload) => match b64url_decoded(payload) {
                    None => Err(ApiErrV::Validation("Payload JWT inválido"@)),
                    Some(bytes) => match claims_of_json(bytes) {
                        None => Err(ApiErrV::Validation("Claims JWT inválidos"@)),
                        Some(c) => Ok(c),
                    },
                },
            },
        },
    }
}

pub open spec fn opt_view(auth: Option<&str>) -> Option<Seq<char>> {
    match auth {
        Some(a) => Some(a@),
        None => None,
    }
}

/// Parses the claim set out of the identity token carried by the
/// `Authorization` header, if any.  The token's signature is not
/// checked here; that is left to the gateway in front of the engine.
pub fn parse_jwt_claims(auth: Option<&str>) -> (r: Result<JwtClaims, ApiError>)
    ensures
        res_view(r) == parse_claims_model(opt_view(auth)),
{
    let a = match auth {
        Some(a) => a,
        None => {
            let mut m = String::new();
            m.append("Falta header Authorization");
            proof {
                assert(m@ =~= "Falta header Authorization"@);
            }
            return Err(ApiError::Validation(m));
        },
    };
    let token = match extract_bearer_token(a) {
        Ok(t) => t,
        Err(e) => {
            return Err(e);
        },
    };
    let tn = token.as_str().unicode_len();
    let d1 = find_dot(token.as_str(), 0);
    if d1 >= tn {
        let mut m = String::new();
        m.append("JWT malformado");
        proof {
            assert(m@ =~= "JWT malformado"@);
        }
        return Err(ApiError::Validation(m));
    }
    let d2 = find_dot(token.as_str(), d1 + 1);
    let payload = token.as_str().substring_char(d1 + 1, d2);
    let bytes = match b64url_decode(payload) {
        Some(b) => b,
        None => {
            let mut m = String::new();
            m.append("Payload JWT inválido");
            proof {
                assert(m@ =~= "Payload JWT inválido"@);
            }
            return Err(ApiError::Validation(m));
        },
    };
    match claims_from_json(&bytes) {
        Some(c) => Ok(c),
        None => {
            let mut m = String::new();
            m.append("Claims JWT inválidos");
            proof {
                assert(m@ =~= "Claims JWT inválidos"@);
            }
            Err(ApiError::Validation(m))
        },
    }
}

/// What tenant resolution yields: the `tenant_id` claim, else the
/// `custom:tenant_id` claim, else `Forbidden`.
pub open spec fn require_tenant_model(auth: Option<Seq<char>>) -> Result<Seq<char>, ApiErrV> {
    match parse_claims_model(auth) {
        Err(e) => Err(e),
        Ok(c) => match c.tenant_id {
            Some(t) => Ok(t),
            None => match c.custom_tenant_id {
                Some(t) => Ok(t),
                None => Err(ApiErrV::Forbidden("Tenant no presente en token"@)),
            },
        },
    }
}

/// Resolves the acting tenant from the identity token.
pub fn require_tenant(auth: Option<&str>) -> (r: Result<String, ApiError>)
    ensures
        match r {
            Ok(t) => require_tenant_model(opt_view(auth)) == Ok::<Seq<char>, ApiErrV>(t@),
            Err(e) => require_tenant_model(opt_view(auth)) == Err::<Seq<char>, ApiErrV>(e@),
        },
{
    let claims = match parse_jwt_claims(auth) {
        Ok(c) => c,
        Err(e) => {
            return Err(e);
        },
    };
    match claims.tenant_id {
        Some(t) => Ok(t),
        None => match claims.custom_tenant_id {
            Some(t) => Ok(t),
            None => {
                let mut m = String::new();
                m.append("Tenant no presente en token");
                proof {
                    assert(m@ =~= "Tenant no presente en token"@);
                }
                Err(ApiError::Forbidden(m))
            },
        },
    }
}

} // verus!
