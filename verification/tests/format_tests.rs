//! Timestamps, decimal parsing, error bodies and notification
//! rendering.

use turnaki::errors::ApiError;
use turnaki::notify::{
    fill_template, get_subject, health_body, plan_reminders, recipient, replace_all,
    template_name, NotificationPayload,
};
use turnaki::text::{parse_u32_dec, str_eq, str_starts_with, u32_to_dec};
use turnaki::time::{
    add_minutes, format_date, format_hm, format_rfc3339, parse_date, parse_rfc3339, sub_minutes,
    Timestamp,
};

fn ts(y: i32, mo: u32, d: u32, h: u32, mi: u32, s: u32) -> Timestamp {
    Timestamp { year: y, month: mo, day: d, hour: h, minute: mi, second: s, offset_sec: 0 }
}

#[test]
fn rfc3339_parse_and_format_round_trip() {
    let t = parse_rfc3339("2025-10-01T09:05:07Z").expect("parse");
    assert_eq!(t.year, 2025);
    assert_eq!(t.month, 10);
    assert_eq!(t.day, 1);
    assert_eq!(t.hour, 9);
    assert_eq!(t.minute, 5);
    assert_eq!(t.second, 7);
    assert_eq!(t.offset_sec, 0);
    assert_eq!(format_rfc3339(&t), "2025-10-01T09:05:07Z");
    let with_offset = parse_rfc3339("1996-12-19T16:39:57-08:00").expect("parse");
    assert_eq!(format_rfc3339(&with_offset), "1996-12-19T16:39:57-08:00");
    assert!(parse_rfc3339("2025-13-01T00:00:00Z").is_none());
    assert!(parse_rfc3339("garbage").is_none());
}

#[test]
fn date_and_time_formatting() {
    let t = ts(2025, 10, 1, 9, 15, 0);
    assert_eq!(format_date(&t), "2025-10-01");
    assert_eq!(format_hm(&t), "09:15");
}

#[test]
fn minute_arithmetic_rolls_over_correctly() {
    // end of year
    let t = ts(2025, 12, 31, 23, 30, 0);
    let t2 = add_minutes(&t, 45).expect("add");
    assert_eq!(format_rfc3339(&t2), "2026-01-01T00:15:00Z");
    // a whole day backwards
    let t3 = sub_minutes(&ts(2025, 3, 1, 0, 30, 0), 1440).expect("sub");
    assert_eq!(format_rfc3339(&t3), "2025-02-28T00:30:00Z");
    // leap day backwards
    let t4 = sub_minutes(&ts(2024, 3, 1, 0, 30, 0), 1440).expect("sub");
    assert_eq!(format_rfc3339(&t4), "2024-02-29T00:30:00Z");
}

#[test]
fn plain_date_parsing_is_strict() {
    assert_eq!(parse_date("2025-10-01"), Some((2025, 10, 1)));
    assert_eq!(parse_date("2024-02-29"), Some((2024, 2, 29)));
    assert_eq!(parse_date("2025-02-29"), None);
    assert_eq!(parse_date("2025-02-30"), None);
    assert_eq!(parse_date("2025-13-01"), None);
    assert_eq!(parse_date("2025-1-01"), None);
    assert_eq!(parse_date("20251001"), None);
}

#[test]
fn decimal_parsing_is_exact() {
    assert_eq!(parse_u32_dec("45"), Some(45));
    assert_eq!(parse_u32_dec("0"), Some(0));
    assert_eq!(parse_u32_dec("007"), Some(7));
    assert_eq!(parse_u32_dec(""), None);
    assert_eq!(parse_u32_dec("4x"), None);
    assert_eq!(parse_u32_dec("-5"), None);
    assert_eq!(parse_u32_dec("4294967295"), Some(u32::MAX));
    assert_eq!(parse_u32_dec("4294967296"), None);
    assert_eq!(u32_to_dec(450), "450");
    assert_eq!(u32_to_dec(0), "0");
}

#[test]
fn string_helpers() {
    assert!(str_starts_with("SLOT#09:00#profA", "SLOT#"));
    assert!(!str_starts_with("SLO", "SLOT#"));
    assert!(str_eq("hola", "hola"));
    assert!(!str_eq("hola", "holas"));
}

#[test]
fn error_bodies_escape_and_carry_the_status() {
    let e = ApiError::Validation("bad \"quote\"\n".to_string());
    assert_eq!(e.status_code(), 400);
    assert_eq!(e.error_body(), "{\"error\":\"bad \\\"quote\\\"\\n\",\"status\":400}");
    let nf = ApiError::NotFound("nope".to_string());
    assert_eq!(nf.status_code(), 404);
    assert_eq!(nf.error_body(), "{\"error\":\"nope\",\"status\":404}");
    let internal = ApiError::Internal("secret detail".to_string());
    assert_eq!(internal.status_code(), 500);
    // internal detail never leaks
    assert_eq!(
        internal.error_body(),
        "{\"error\":\"Error interno del servidor\",\"status\":500}"
    );
    assert_eq!(ApiError::Conflict(String::new()).status_code(), 409);
    assert_eq!(ApiError::Forbidden(String::new()).status_code(), 403);
}

#[test]
fn subjects_and_templates_by_type() {
    assert_eq!(get_subject("confirmation"), "✅ Cita Confirmada - Turnaki NexioQ");
    assert_eq!(get_subject("reminder"), "⏰ Recordatorio de Cita - Turnaki NexioQ");
    assert_eq!(get_subject("cancellation"), "❌ Cita Cancelada - Turnaki NexioQ");
    assert_eq!(get_subject("whatever"), "Notificación - Turnaki NexioQ");
    assert_eq!(template_name("confirmation"), "booking-confirmation.html");
    assert_eq!(template_name("reminder"), "booking-reminder.html");
    assert_eq!(template_name("cancellation"), "booking-cancelled.html");
    assert_eq!(template_name("other"), "booking-confirmation.html");
}

#[test]
fn replace_all_is_leftmost_nonoverlapping() {
    assert_eq!(replace_all("aaa", "aa", "b"), "ba");
    assert_eq!(replace_all("hola {{x}} y {{x}}", "{{x}}", "z"), "hola z y z");
    assert_eq!(replace_all("sin cambios", "{{x}}", "z"), "sin cambios");
}

fn sample_notification() -> NotificationPayload {
    NotificationPayload {
        notification_type: "reminder".to_string(),
        to: Some("fallback@example.com".to_string()),
        patient_email: Some("ana@example.com".to_string()),
        patient_name: "Ana".to_string(),
        booking_id: "b1".to_string(),
        appointment_date: Some("2025-10-01".to_string()),
        appointment_time: Some("09:00".to_string()),
        professional_name: None,
        treatment_name: None,
        clinic_address: None,
        clinic_email: None,
        hours_before: Some(24),
    }
}

#[test]
fn template_filling_replaces_every_placeholder() {
    let n = sample_notification();
    let html = "<p>{{patient_name}}: {{appointment_date}} {{appointment_time}} \
                ({{hours_before}}h) {{manage_booking_url}} {{clinic_email}}</p>";
    let out = fill_template(html, &n, "https://turnaki.nexioq.com");
    assert_eq!(
        out,
        "<p>Ana: 2025-10-01 09:00 (24h) https://turnaki.nexioq.com/my-appointments \
         soporte@nexioq.com</p>"
    );
}

#[test]
fn recipient_prefers_the_patient_address() {
    let n = sample_notification();
    assert_eq!(recipient(&n).as_deref(), Some("ana@example.com"));
    let mut without = sample_notification();
    without.patient_email = None;
    assert_eq!(recipient(&without).as_deref(), Some("fallback@example.com"));
    without.to = None;
    assert_eq!(recipient(&without), None);
}

#[test]
fn reminders_are_planned_at_t24_and_t2() {
    let plan = plan_reminders(
        &"b1".to_string(),
        &"2025-10-01T09:00:00Z".to_string(),
        &"ana@example.com".to_string(),
        &"Ana".to_string(),
    )
    .expect("plan");
    assert_eq!(plan.schedule_name_24h, "booking-b1-24h");
    assert_eq!(plan.schedule_name_2h, "booking-b1-2h");
    assert_eq!(plan.schedule_expr_24h, "at(2025-09-30T09:00:00)");
    assert_eq!(plan.schedule_expr_2h, "at(2025-10-01T07:00:00)");
    assert_eq!(plan.reminder_times, vec![
        "2025-09-30T09:00:00Z".to_string(),
        "2025-10-01T07:00:00Z".to_string(),
    ]);
    assert_eq!(
        plan.payload_24h,
        "{\"booking_id\":\"b1\",\"hours_before\":24,\"patient_email\":\"ana@example.com\",\
         \"patient_name\":\"Ana\",\"type\":\"reminder\"}"
    );
    assert_eq!(plan.message, "Recordatorios programados exitosamente");
    let bad = plan_reminders(
        &"b1".to_string(),
        &"mañana".to_string(),
        &"a@b.co".to_string(),
        &"Ana".to_string(),
    );
    assert!(matches!(bad, Err(ApiError::Validation(_))));
}

#[test]
fn test_health_returns_ok() {
    let body = health_body(&ts(2025, 10, 1, 9, 0, 0));
    assert_eq!(
        body,
        "{\"service\":\"health\",\"status\":\"ok\",\"timestamp\":\"2025-10-01T09:00:00Z\"}"
    );
    assert!(body.contains("\"status\":\"ok\""));
    assert!(body.contains("\"service\":\"health\""));
    assert!(body.contains("timestamp"));
}
