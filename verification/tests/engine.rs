//! Booking lifecycle and availability scenarios, run against the
//! store model.

use base64::Engine as _;
use turnaki::availability::{availability, compute_free_slots, AvailabilityRequest};
use turnaki::bookings::{
    cancel_booking, create_booking, fetch_treatment_duration_minutes, list_bookings,
    update_booking, CreateBookingRequest, UpdateBookingRequest,
};
use turnaki::errors::ApiError;
use turnaki::store::{AttrVal, Store};
use turnaki::time::Timestamp;
use turnaki::treatments::{create_treatment, CreateTreatmentRequest};

fn bearer(tenant: &str) -> String {
    let claims = format!("{{\"tenant_id\":\"{}\"}}", tenant);
    let payload = base64::engine::general_purpose::URL_SAFE_NO_PAD.encode(claims.as_bytes());
    format!("Bearer hdr.{}.sig", payload)
}

fn test_now() -> Timestamp {
    Timestamp { year: 2025, month: 9, day: 30, hour: 12, minute: 0, second: 0, offset_sec: 0 }
}

/// A store holding one treatment of the given duration and buffer for
/// tenant `t1`.
fn store_with_treatment(duration: i32, buffer: i32) -> Store {
    let mut store = Store::new();
    let req = CreateTreatmentRequest {
        tenant_id: "t1".to_string(),
        name: "Limpieza".to_string(),
        duration_minutes: duration,
        buffer_minutes: Some(buffer),
    };
    let r = create_treatment(&mut store, &req, &"tr1".to_string(), &test_now());
    assert!(r.is_ok());
    store
}

fn create_req(start: &str) -> CreateBookingRequest {
    CreateBookingRequest {
        tenant_id: "t1".to_string(),
        site_id: "S1".to_string(),
        professional_id: "profA".to_string(),
        treatment_id: "tr1".to_string(),
        start_time: start.to_string(),
        patient_name: "Ana".to_string(),
        patient_email: "ana@example.com".to_string(),
    }
}

#[test]
fn create_booking_computes_end_time() {
    // duration 30 + buffer 15 starting at 09:00 ends at 09:45
    let mut store = store_with_treatment(30, 15);
    let auth = bearer("t1");
    let r = create_booking(
        &mut store,
        Some(auth.as_str()),
        &create_req("2025-10-01T09:00:00Z"),
        &"b1".to_string(),
        &test_now(),
    );
    let b = r.expect("create should succeed");
    assert_eq!(b.start_time, "2025-10-01T09:00:00Z");
    assert_eq!(b.end_time, "2025-10-01T09:45:00Z");
    assert_eq!(b.status, "confirmed");
    assert_eq!(b.tenant_id, "t1");
}

#[test]
fn second_create_for_same_slot_conflicts() {
    let mut store = store_with_treatment(30, 15);
    let auth = bearer("t1");
    let first = create_booking(
        &mut store,
        Some(auth.as_str()),
        &create_req("2025-10-01T09:00:00Z"),
        &"b1".to_string(),
        &test_now(),
    );
    assert!(first.is_ok());
    let second = create_booking(
        &mut store,
        Some(auth.as_str()),
        &create_req("2025-10-01T09:00:00Z"),
        &"b2".to_string(),
        &test_now(),
    );
    match second {
        Err(e @ ApiError::Conflict(_)) => assert_eq!(e.status_code(), 409),
        other => panic!("expected a conflict, got {:?}", other.is_ok()),
    }
}

#[test]
fn tenant_mismatch_is_forbidden_and_writes_nothing() {
    let mut store = store_with_treatment(30, 15);
    // token tenant t2, payload tenant t1
    let auth = bearer("t2");
    let r = create_booking(
        &mut store,
        Some(auth.as_str()),
        &create_req("2025-10-01T09:00:00Z"),
        &"b1".to_string(),
        &test_now(),
    );
    match r {
        Err(e @ ApiError::Forbidden(_)) => assert_eq!(e.status_code(), 403),
        _ => panic!("expected forbidden"),
    }
    // nothing was written: the same slot can still be taken
    let auth_ok = bearer("t1");
    let again = create_booking(
        &mut store,
        Some(auth_ok.as_str()),
        &create_req("2025-10-01T09:00:00Z"),
        &"b1".to_string(),
        &test_now(),
    );
    assert!(again.is_ok());
}

#[test]
fn create_rejects_bad_start_time() {
    let mut store = store_with_treatment(30, 15);
    let auth = bearer("t1");
    let r = create_booking(
        &mut store,
        Some(auth.as_str()),
        &create_req("not-a-timestamp"),
        &"b1".to_string(),
        &test_now(),
    );
    match r {
        Err(e @ ApiError::Validation(_)) => {
            assert_eq!(e.status_code(), 400);
            assert_eq!(e.public_message(), "start_time inválido (usar ISO8601)");
        },
        _ => panic!("expected validation error"),
    }
}

#[test]
fn create_requires_known_treatment() {
    let mut store = Store::new();
    let auth = bearer("t1");
    let r = create_booking(
        &mut store,
        Some(auth.as_str()),
        &create_req("2025-10-01T09:00:00Z"),
        &"b1".to_string(),
        &test_now(),
    );
    match r {
        Err(e @ ApiError::NotFound(_)) => {
            assert_eq!(e.status_code(), 404);
            assert_eq!(e.public_message(), "Tratamiento no encontrado");
        },
        _ => panic!("expected not found"),
    }
}

#[test]
fn missing_duration_attribute_defaults_to_45() {
    let mut store = Store::new();
    // a treatment row without the duration attribute
    store.put(
        "TENANT#t1".to_string(),
        "TREATMENT#tr1".to_string(),
        vec![("name".to_string(), AttrVal::S("Limpieza".to_string()))],
    );
    let d = fetch_treatment_duration_minutes(&store, "t1", "tr1");
    assert_eq!(d.unwrap(), 45);
}

#[test]
fn cancel_twice_conflicts() {
    let mut store = store_with_treatment(30, 15);
    let auth = bearer("t1");
    let r = create_booking(
        &mut store,
        Some(auth.as_str()),
        &create_req("2025-10-01T09:00:00Z"),
        &"b1".to_string(),
        &test_now(),
    );
    assert!(r.is_ok());
    let first = cancel_booking(&mut store, Some(auth.as_str()), &"b1".to_string(), &test_now());
    let ack = first.expect("first cancel should succeed");
    assert_eq!(ack.message, "Booking cancelado exitosamente");
    assert_eq!(ack.booking_id, "b1");
    let second = cancel_booking(&mut store, Some(auth.as_str()), &"b1".to_string(), &test_now());
    match second {
        Err(e @ ApiError::Conflict(_)) => {
            assert_eq!(e.status_code(), 409);
            assert_eq!(e.public_message(), "Booking ya está cancelado");
        },
        _ => panic!("expected conflict"),
    }
    // a third attempt conflicts as well
    let third = cancel_booking(&mut store, Some(auth.as_str()), &"b1".to_string(), &test_now());
    assert!(matches!(third, Err(ApiError::Conflict(_))));
}

#[test]
fn cancel_frees_the_slot() {
    let mut store = store_with_treatment(30, 15);
    let auth = bearer("t1");
    create_booking(
        &mut store,
        Some(auth.as_str()),
        &create_req("2025-10-01T09:00:00Z"),
        &"b1".to_string(),
        &test_now(),
    )
    .expect("create");
    cancel_booking(&mut store, Some(auth.as_str()), &"b1".to_string(), &test_now())
        .expect("cancel");
    // the slot is free again
    let again = create_booking(
        &mut store,
        Some(auth.as_str()),
        &create_req("2025-10-01T09:00:00Z"),
        &"b2".to_string(),
        &test_now(),
    );
    assert!(again.is_ok());
}

#[test]
fn cancel_of_other_tenants_booking_is_forbidden() {
    let mut store = store_with_treatment(30, 15);
    let auth = bearer("t1");
    create_booking(
        &mut store,
        Some(auth.as_str()),
        &create_req("2025-10-01T09:00:00Z"),
        &"b1".to_string(),
        &test_now(),
    )
    .expect("create");
    let other = bearer("t2");
    let r = cancel_booking(&mut store, Some(other.as_str()), &"b1".to_string(), &test_now());
    match r {
        Err(e @ ApiError::Forbidden(_)) => {
            assert_eq!(e.public_message(), "No puedes cancelar reservas de otro tenant");
        },
        _ => panic!("expected forbidden"),
    }
}

#[test]
fn cancel_unknown_booking_is_not_found() {
    let mut store = Store::new();
    let auth = bearer("t1");
    let r = cancel_booking(&mut store, Some(auth.as_str()), &"nope".to_string(), &test_now());
    match r {
        Err(e @ ApiError::NotFound(_)) => {
            assert_eq!(e.public_message(), "Booking no encontrado");
        },
        _ => panic!("expected not found"),
    }
}

#[test]
fn reschedule_to_occupied_slot_changes_nothing() {
    let mut store = store_with_treatment(30, 15);
    let auth = bearer("t1");
    create_booking(
        &mut store,
        Some(auth.as_str()),
        &create_req("2025-10-01T09:00:00Z"),
        &"b1".to_string(),
        &test_now(),
    )
    .expect("create b1");
    create_booking(
        &mut store,
        Some(auth.as_str()),
        &create_req("2025-10-01T10:00:00Z"),
        &"b2".to_string(),
        &test_now(),
    )
    .expect("create b2");
    // move b1 onto b2's slot: the whole commit aborts
    let payload = UpdateBookingRequest { start_time: "2025-10-01T10:00:00Z".to_string() };
    let r = update_booking(&mut store, Some(auth.as_str()), &"b1".to_string(), &payload,
        &test_now());
    match r {
        Err(e @ ApiError::Conflict(_)) => {
            assert_eq!(e.public_message(), "Nuevo slot no disponible");
        },
        _ => panic!("expected conflict"),
    }
    // b1 is unchanged: its old slot is still held by it
    let bookings = list_bookings(&store, Some(auth.as_str())).expect("list");
    let b1 = bookings.iter().find(|b| b.id == "b1").expect("b1 listed");
    assert_eq!(b1.start_time, "2025-10-01T09:00:00Z");
    assert_eq!(b1.end_time, "2025-10-01T09:45:00Z");
}

#[test]
fn reschedule_to_free_slot_moves_the_booking() {
    let mut store = store_with_treatment(30, 15);
    let auth = bearer("t1");
    create_booking(
        &mut store,
        Some(auth.as_str()),
        &create_req("2025-10-01T09:00:00Z"),
        &"b1".to_string(),
        &test_now(),
    )
    .expect("create");
    let payload = UpdateBookingRequest { start_time: "2025-10-01T11:00:00Z".to_string() };
    let ack = update_booking(&mut store, Some(auth.as_str()), &"b1".to_string(), &payload,
        &test_now())
        .expect("reschedule");
    assert_eq!(ack.message, "Booking reprogramado exitosamente");
    assert_eq!(ack.new_start_time, "2025-10-01T11:00:00Z");
    // the old slot is free again, the new one is taken
    let old_again = create_booking(
        &mut store,
        Some(auth.as_str()),
        &create_req("2025-10-01T09:00:00Z"),
        &"b2".to_string(),
        &test_now(),
    );
    assert!(old_again.is_ok());
    let new_again = create_booking(
        &mut store,
        Some(auth.as_str()),
        &create_req("2025-10-01T11:00:00Z"),
        &"b3".to_string(),
        &test_now(),
    );
    assert!(matches!(new_again, Err(ApiError::Conflict(_))));
    // and the booking's times were updated
    let bookings = list_bookings(&store, Some(auth.as_str())).expect("list");
    let b1 = bookings.iter().find(|b| b.id == "b1").expect("b1 listed");
    assert_eq!(b1.start_time, "2025-10-01T11:00:00Z");
    assert_eq!(b1.end_time, "2025-10-01T11:45:00Z");
}

#[test]
fn list_bookings_is_tenant_scoped() {
    let mut store = store_with_treatment(30, 15);
    let auth = bearer("t1");
    create_booking(
        &mut store,
        Some(auth.as_str()),
        &create_req("2025-10-01T09:00:00Z"),
        &"b1".to_string(),
        &test_now(),
    )
    .expect("create");
    create_booking(
        &mut store,
        Some(auth.as_str()),
        &create_req("2025-10-01T10:00:00Z"),
        &"b2".to_string(),
        &test_now(),
    )
    .expect("create");
    let mine = list_bookings(&store, Some(auth.as_str())).expect("list");
    assert_eq!(mine.len(), 2);
    let other = bearer("t2");
    let theirs = list_bookings(&store, Some(other.as_str())).expect("list");
    assert_eq!(theirs.len(), 0);
}

#[test]
fn end_time_rolls_over_midnight_and_leap_day() {
    let mut store = store_with_treatment(30, 15);
    let auth = bearer("t1");
    let r = create_booking(
        &mut store,
        Some(auth.as_str()),
        &create_req("2024-02-28T23:30:00Z"),
        &"b1".to_string(),
        &test_now(),
    );
    let b = r.expect("create");
    // 2024 is a leap year: 23:30 + 45 minutes crosses into February 29
    assert_eq!(b.end_time, "2024-02-29T00:15:00Z");
}

#[test]
fn offsets_are_kept_on_wall_time() {
    let mut store = store_with_treatment(30, 15);
    let auth = bearer("t1");
    let b = create_booking(
        &mut store,
        Some(auth.as_str()),
        &create_req("2025-10-01T09:00:00-05:00"),
        &"b1".to_string(),
        &test_now(),
    )
    .expect("create");
    assert_eq!(b.start_time, "2025-10-01T09:00:00-05:00");
    assert_eq!(b.end_time, "2025-10-01T09:45:00-05:00");
}

#[test]
fn availability_scenario_one_slot_taken() {
    // date 2025-10-01, site S1, professional profA, occupied 09:00#profA:
    // 31 of the 32 candidates come back, the first at 09:15
    let occupied = vec!["09:00#profA".to_string()];
    let slots = compute_free_slots(
        &"2025-10-01".to_string(),
        &Some("profA".to_string()),
        &occupied,
    )
    .expect("grid");
    assert_eq!(slots.len(), 31);
    assert_eq!(slots[0].start, "2025-10-01T09:15:00Z");
    assert_eq!(slots[0].end, "2025-10-01T10:00:00Z");
    assert_eq!(slots[0].professional_id, "profA");
    assert!(slots[0].available);
}

#[test]
fn availability_full_grid_when_free() {
    let slots = compute_free_slots(&"2025-10-01".to_string(), &None, &Vec::new()).expect("grid");
    assert_eq!(slots.len(), 32);
    assert_eq!(slots[0].start, "2025-10-01T09:00:00Z");
    assert_eq!(slots[0].professional_id, "default");
    assert_eq!(slots[31].start, "2025-10-01T16:45:00Z");
    assert_eq!(slots[31].end, "2025-10-01T17:30:00Z");
}

#[test]
fn availability_excludes_booked_slots() {
    let mut store = store_with_treatment(30, 15);
    let auth = bearer("t1");
    create_booking(
        &mut store,
        Some(auth.as_str()),
        &create_req("2025-10-01T09:00:00Z"),
        &"b1".to_string(),
        &test_now(),
    )
    .expect("create");
    let req = AvailabilityRequest {
        site_id: "S1".to_string(),
        professional_id: Some("profA".to_string()),
        date: Some("2025-10-01".to_string()),
    };
    let out = availability(&store, Some(auth.as_str()), &req, &test_now()).expect("availability");
    assert_eq!(out.date, "2025-10-01");
    assert_eq!(out.total, 31);
    assert!(out.slots.iter().all(|s| s.start != "2025-10-01T09:00:00Z"));
}

#[test]
fn availability_defaults_to_tomorrow() {
    let store = Store::new();
    let auth = bearer("t1");
    let req = AvailabilityRequest {
        site_id: "S1".to_string(),
        professional_id: None,
        date: None,
    };
    let out = availability(&store, Some(auth.as_str()), &req, &test_now()).expect("availability");
    // the test clock stands on 2025-09-30
    assert_eq!(out.date, "2025-10-01");
    assert_eq!(out.total, 32);
}

#[test]
fn availability_rejects_bad_date() {
    let store = Store::new();
    let auth = bearer("t1");
    let req = AvailabilityRequest {
        site_id: "S1".to_string(),
        professional_id: None,
        date: Some("2025-02-30".to_string()),
    };
    let r = availability(&store, Some(auth.as_str()), &req, &test_now());
    match r {
        Err(e @ ApiError::Internal(_)) => {
            assert_eq!(e.status_code(), 500);
            // internal detail is never shown
            assert_eq!(e.public_message(), "Error interno del servidor");
        },
        _ => panic!("expected internal error"),
    }
}
