//! Tenant resolution from identity tokens.

use base64::Engine as _;
use turnaki::auth::{extract_bearer_token, parse_jwt_claims, require_tenant};
use turnaki::errors::ApiError;

fn token_of(claims_json: &str) -> String {
    let payload = base64::engine::general_purpose::URL_SAFE_NO_PAD.encode(claims_json.as_bytes());
    format!("Bearer hdr.{}.sig", payload)
}

#[test]
fn bearer_prefix_is_required() {
    let r = extract_bearer_token("Token abc");
    assert!(matches!(r, Err(ApiError::Validation(_))));
    let ok = extract_bearer_token("Bearer abc.def.ghi").expect("token");
    assert_eq!(ok, "abc.def.ghi");
}

#[test]
fn missing_header_is_rejected() {
    let r = require_tenant(None);
    match r {
        Err(e @ ApiError::Validation(_)) => {
            assert_eq!(e.public_message(), "Falta header Authorization");
        },
        _ => panic!("expected validation error"),
    }
}

#[test]
fn token_without_payload_segment_is_malformed() {
    let r = require_tenant(Some("Bearer onlyonesegment"));
    match r {
        Err(e @ ApiError::Validation(_)) => {
            assert_eq!(e.public_message(), "JWT malformado");
        },
        _ => panic!("expected validation error"),
    }
}

#[test]
fn bad_base64_payload_is_rejected() {
    let r = require_tenant(Some("Bearer hdr.!!!!.sig"));
    match r {
        Err(e @ ApiError::Validation(_)) => {
            assert_eq!(e.public_message(), "Payload JWT inválido");
        },
        _ => panic!("expected validation error"),
    }
}

#[test]
fn bad_json_payload_is_rejected() {
    let payload = base64::engine::general_purpose::URL_SAFE_NO_PAD.encode(b"not json");
    let header = format!("Bearer hdr.{}.sig", payload);
    let r = require_tenant(Some(header.as_str()));
    match r {
        Err(e @ ApiError::Validation(_)) => {
            assert_eq!(e.public_message(), "Claims JWT inválidos");
        },
        _ => panic!("expected validation error"),
    }
}

#[test]
fn tenant_claim_is_read() {
    let header = token_of("{\"tenant_id\":\"t9\",\"sub\":\"u1\"}");
    let t = require_tenant(Some(header.as_str())).expect("tenant");
    assert_eq!(t, "t9");
}

#[test]
fn custom_tenant_claim_is_the_fallback() {
    let header = token_of("{\"custom:tenant_id\":\"t7\"}");
    let t = require_tenant(Some(header.as_str())).expect("tenant");
    assert_eq!(t, "t7");
}

#[test]
fn token_without_tenant_is_forbidden() {
    let header = token_of("{\"sub\":\"u1\"}");
    let r = require_tenant(Some(header.as_str()));
    match r {
        Err(e @ ApiError::Forbidden(_)) => {
            assert_eq!(e.status_code(), 403);
            assert_eq!(e.public_message(), "Tenant no presente en token");
        },
        _ => panic!("expected forbidden"),
    }
}

#[test]
fn claims_fields_are_parsed() {
    let header = token_of(
        "{\"sub\":\"u1\",\"email\":\"a@b.co\",\"cognito:groups\":[\"Admin\"],\"tenant_id\":\"t1\"}",
    );
    let c = parse_jwt_claims(Some(header.as_str())).expect("claims");
    assert_eq!(c.sub.as_deref(), Some("u1"));
    assert_eq!(c.email.as_deref(), Some("a@b.co"));
    assert_eq!(c.groups.as_ref().map(|g| g.len()), Some(1));
    assert_eq!(c.tenant_id.as_deref(), Some("t1"));
    assert_eq!(c.custom_tenant_id, None);
}
