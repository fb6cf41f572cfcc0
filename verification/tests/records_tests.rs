//! Tenant, treatment and professional records at the engine's
//! boundary.

use base64::Engine as _;
use turnaki::errors::ApiError;
use turnaki::professionals::{create_professional, list_professionals, CreateProfessionalRequest};
use turnaki::store::Store;
use turnaki::tenants::{create_tenant, get_tenant, CreateTenantRequest};
use turnaki::time::Timestamp;
use turnaki::treatments::{create_treatment, list_treatments, CreateTreatmentRequest};

fn test_now() -> Timestamp {
    Timestamp { year: 2025, month: 9, day: 30, hour: 12, minute: 0, second: 0, offset_sec: 0 }
}

#[test]
fn test_treatment_duration_validation() {
    assert!(30 >= 5 && 30 <= 480);
    assert!(45 >= 5 && 45 <= 480);
}

#[test]
fn test_treatment_name_min_length() {
    let name = "ABC";
    assert!(name.len() >= 3);
}

#[test]
fn test_create_tenant_validates_email() {
    let mut store = Store::new();
    let req = CreateTenantRequest {
        name: "Clínica Test".to_string(),
        contact_email: "invalid-email".to_string(),
        timezone: Some("America/Bogota".to_string()),
    };
    let r = create_tenant(&mut store, &req, &"t1".to_string(), &test_now());
    match r {
        Err(e @ ApiError::Validation(_)) => {
            assert_eq!(e.status_code(), 400);
            assert!(e.error_body().contains("error"));
        },
        _ => panic!("expected validation error"),
    }
}

#[test]
fn test_get_tenant_not_found_returns_404() {
    let store = Store::new();
    let r = get_tenant(&store, &"non-existent-id".to_string());
    match r {
        Err(e @ ApiError::NotFound(_)) => {
            assert_eq!(e.status_code(), 404);
            assert_eq!(e.public_message(), "Tenant non-existent-id no encontrado");
        },
        _ => panic!("expected not found"),
    }
}

#[test]
fn tenant_round_trip() {
    let mut store = Store::new();
    let req = CreateTenantRequest {
        name: "Clínica Test".to_string(),
        contact_email: "hola@clinica.co".to_string(),
        timezone: None,
    };
    let created = create_tenant(&mut store, &req, &"t1".to_string(), &test_now()).expect("create");
    assert_eq!(created.timezone, "America/Bogota");
    assert_eq!(created.status, "active");
    let read = get_tenant(&store, &"t1".to_string()).expect("get");
    assert_eq!(read.id, "t1");
    assert_eq!(read.name, "Clínica Test");
    assert_eq!(read.contact_email, "hola@clinica.co");
    assert_eq!(read.timezone, "America/Bogota");
}

#[test]
fn treatment_round_trip_and_validation() {
    let mut store = Store::new();
    let bad = CreateTreatmentRequest {
        tenant_id: "t1".to_string(),
        name: "Limpieza".to_string(),
        duration_minutes: 3,
        buffer_minutes: None,
    };
    assert!(matches!(
        create_treatment(&mut store, &bad, &"tr0".to_string(), &test_now()),
        Err(ApiError::Validation(_))
    ));
    let good = CreateTreatmentRequest {
        tenant_id: "t1".to_string(),
        name: "Limpieza".to_string(),
        duration_minutes: 30,
        buffer_minutes: Some(15),
    };
    let t = create_treatment(&mut store, &good, &"tr1".to_string(), &test_now()).expect("create");
    assert_eq!(t.duration_minutes, 30);
    assert_eq!(t.buffer_minutes, 15);
    let listed = list_treatments(&store, "t1");
    assert_eq!(listed.len(), 1);
    assert_eq!(listed[0].id, "tr1");
    assert_eq!(listed[0].duration_minutes, 30);
    assert_eq!(listed[0].buffer_minutes, 15);
    assert_eq!(list_treatments(&store, "t2").len(), 0);
}

#[test]
fn professional_round_trip() {
    let mut store = Store::new();
    let req = CreateProfessionalRequest {
        tenant_id: "t1".to_string(),
        name: "Dra. Gómez".to_string(),
        email: "gomez@clinica.co".to_string(),
        specialties: vec!["ortodoncia".to_string()],
        schedule: None,
    };
    let p = create_professional(&mut store, &req, &"p1".to_string(), &test_now())
        .expect("create");
    assert_eq!(p.schedule, "{}");
    assert_eq!(p.status, "active");
    let listed = list_professionals(&store, "t1");
    assert_eq!(listed.len(), 1);
    assert_eq!(listed[0].id, "p1");
    assert_eq!(listed[0].specialties, vec!["ortodoncia".to_string()]);
    let bad_email = CreateProfessionalRequest {
        tenant_id: "t1".to_string(),
        name: "Dra. Gómez".to_string(),
        email: "not-an-email".to_string(),
        specialties: Vec::new(),
        schedule: None,
    };
    assert!(matches!(
        create_professional(&mut store, &bad_email, &"p2".to_string(), &test_now()),
        Err(ApiError::Validation(_))
    ));
}

#[test]
fn generated_ids_have_the_hyphenated_length() {
    let mut store = Store::new();
    let treatment = CreateTreatmentRequest {
        tenant_id: "t1".to_string(),
        name: "Limpieza".to_string(),
        duration_minutes: 30,
        buffer_minutes: None,
    };
    create_treatment(&mut store, &treatment, &"tr1".to_string(), &test_now()).expect("treatment");
    let payload =
        base64::engine::general_purpose::URL_SAFE_NO_PAD.encode(b"{\"tenant_id\":\"t1\"}");
    let auth = format!("Bearer hdr.{}.sig", payload);
    let req = turnaki::bookings::CreateBookingRequest {
        tenant_id: "t1".to_string(),
        site_id: "S1".to_string(),
        professional_id: "profA".to_string(),
        treatment_id: "tr1".to_string(),
        start_time: "2025-10-01T09:00:00Z".to_string(),
        patient_name: "Ana".to_string(),
        patient_email: "ana@example.com".to_string(),
    };
    let b = turnaki::bookings::create_booking_now(&mut store, Some(auth.as_str()), &req)
        .expect("create");
    assert_eq!(b.id.chars().count(), 36);
}
