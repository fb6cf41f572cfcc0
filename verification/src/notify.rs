//! Booking-lifecycle notifications: subjects, template filling and
//! reminder planning.
//!
//! Dispatch itself (mail, scheduler triggers) is a fire-and-forget
//! concern of the surrounding process; everything computed on the way
//! there — which template, which subject, the filled body, the
//! reminder times and trigger payloads — is verified here.

use vstd::prelude::*;
use crate::errors::{ApiError, ApiErrV};
use crate::text::{lit, push_char, str_eq};
use crate::time::{
    fmt_local, fmt_rfc3339, format_local, format_rfc3339, parse_rfc3339, rfc3339_parsed,
    shift_ts, sub_minutes, Timestamp,
};

verus! {

/// The subject line for a notification type.
pub open spec fn subject_of(t: Seq<char>) -> Seq<char> {
    if t == "confirmation"@ {
        "✅ Cita Confirmada - Turnaki NexioQ"@
    } else if t == "reminder"@ {
        "⏰ Recordatorio de Cita - Turnaki NexioQ"@
    } else if t == "cancellation"@ {
        "❌ Cita Cancelada - Turnaki NexioQ"@
    } else {
        "Notificación - Turnaki NexioQ"@
    }
}

/// The subject line sent with a notification of the given type.
pub fn get_subject(notification_type: &str) -> (r: String)
    ensures
        r@ == subject_of(notification_type@),
{
    if str_eq(notification_type, "confirmation") {
        lit("✅ Cita Confirmada - Turnaki NexioQ")
    } else if str_eq(notification_type, "reminder") {
        lit("⏰ Recordatorio de Cita - Turnaki NexioQ")
    } else if str_eq(notification_type, "cancellation") {
        lit("❌ Cita Cancelada - Turnaki NexioQ")
    } else {
        lit("Notificación - Turnaki NexioQ")
    }
}

/// The template file name for a notification type.
pub open spec fn template_name_of(t: Seq<char>) -> Seq<char> {
    if t == "confirmation"@ {
        "booking-confirmation.html"@
    } else if t == "reminder"@ {
        "booking-reminder.html"@
    } else if t == "cancellation"@ {
        "booking-cancelled.html"@
    } else {
        "booking-confirmation.html"@
    }
}

/// The template file a notification of the given type is rendered
/// from.
pub fn template_name(notification_type: &str) -> (r: String)
    ensures
        r@ == template_name_of(notification_type@),
{
    if str_eq(notification_type, "confirmation") {
        lit("booking-confirmation.html")
    } else if str_eq(notification_type, "reminder") {
        lit("booking-reminder.html")
    } else if str_eq(notification_type, "cancellation") {
        lit("booking-cancelled.html")
    } else {
        lit("booking-confirmation.html")
    }
}

// ---------------------------------------------------------------------
// Placeholder replacement
// ---------------------------------------------------------------------

/// Every non-overlapping, left-to-right occurrence of `pat` replaced
/// by `val` (the identity for an empty pattern).
pub open spec fn replace_spec(s: Seq<char>, pat: Seq<char>, val: Seq<char>) -> Seq<char>
    decreases s.len(),
{
    if pat.len() == 0 || s.len() == 0 {
        s
    } else if pat.is_prefix_of(s) {
        val + replace_spec(s.skip(pat.len() as int), pat, val)
    } else {
        seq![s[0]] + replace_spec(s.skip(1), pat, val)
    }
}

/// Whether `pat` occurs in `s` at position `i`.
fn matches_at(s: &str, i: usize, pat: &str) -> (r: bool)
    requires
        i <= s@.len(),
    ensures
        r == pat@.is_prefix_of(s@.skip(i as int)),
{
    let n = s.unicode_len();
    let pn = pat.unicode_len();
    if pn > n - i {
        assert(!pat@.is_prefix_of(s@.skip(i as int)));
        return false;
    }
    let mut j: usize = 0;
    while j < pn
        invariant
            j <= pn,
            i + pn <= n == s@.len(),
            pn == pat@.len(),
            forall|j2: int| 0 <= j2 < j ==> s@[i + j2] == pat@[j2],
        decreases pn - j,
    {
        if s.get_char(i + j) != pat.get_char(j) {
            assert(s@.skip(i as int)[j as int] != pat@[j as int]);
            assert(!pat@.is_prefix_of(s@.skip(i as int)));
            return false;
        }
        j += 1;
    }
    assert(pat@ =~= s@.skip(i as int).subrange(0, pn as int));
    true
}

/// Replaces every occurrence of `pat` in `s` by `val`, left to right,
/// without rescanning the replacement.
pub fn replace_all(s: &str, pat: &str, val: &str) -> (r: String)
    ensures
        r@ == replace_spec(s@, pat@, val@),
{
    let n = s.unicode_len();
    let pn = pat.unicode_len();
    if pn == 0 {
        return s.to_owned();
    }
    let mut out = String::new();
    let mut i: usize = 0;
    proof {
        assert(s@.skip(0) =~= s@);
    }
    while i < n
        invariant
            i <= n == s@.len(),
            0 < pn == pat@.len(),
            out@ + replace_spec(s@.skip(i as int), pat@, val@) == replace_spec(s@, pat@, val@),
        decreases n - i,
    {
        if matches_at(s, i, pat) {
            proof {
                assert(s@.skip(i as int).skip(pn as int) =~= s@.skip(i + pn));
            }
            out.append(val);
            i += pn;
        } else {
            proof {
                assert(s@.skip(i as int).skip(1) =~= s@.skip(i + 1));
                assert(s@.skip(i as int)[0] == s@[i as int]);
            }
            push_char(&mut out, s.get_char(i));
            i += 1;
        }
    }
    proof {
        assert(s@.skip(n as int).len() == 0);
        assert(out@ =~= out@ + replace_spec(s@.skip(n as int), pat@, val@));
    }
    out
}

// ---------------------------------------------------------------------
// Template filling
// ---------------------------------------------------------------------

/// A notification as handed to the emitter.
pub struct NotificationPayload {
    pub notification_type: String,
    pub to: Option<String>,
    pub patient_email: Option<String>,
    pub patient_name: String,
    pub booking_id: String,
    pub appointment_date: Option<String>,
    pub appointment_time: Option<String>,
    pub professional_name: Option<String>,
    pub treatment_name: Option<String>,
    pub clinic_address: Option<String>,
    pub clinic_email: Option<String>,
    pub hours_before: Option<u32>,
}

pub open spec fn opt_or_empty(o: Option<String>) -> Seq<char> {
    match o {
        Some(s) => s@,
        None => Seq::empty(),
    }
}

/// The address a notification goes to: the patient's address, else
/// the explicit `to` field.
pub open spec fn recipient_of(n: &NotificationPayload) -> Option<Seq<char>> {
    match n.patient_email {
        Some(e) => Some(e@),
        None => match n.to {
            Some(t) => Some(t@),
            None => None,
        },
    }
}

/// Picks the recipient address.
pub fn recipient(n: &NotificationPayload) -> (r: Option<String>)
    ensures
        match r {
            Some(s) => recipient_of(n) == Some(s@),
            None => recipient_of(n) is None,
        },
{
    match &n.patient_email {
        Some(e) => Some(e.clone()),
        None => match &n.to {
            Some(t) => Some(t.clone()),
            None => None,
        },
    }
}

/// The body of a notification: the template with every placeholder
/// replaced, in the emitter's order.
pub open spec fn filled_template(
    html: Seq<char>,
    n: &NotificationPayload,
    app_url: Seq<char>,
) -> Seq<char> {
    let s1 = replace_spec(html, "{{patient_name}}"@, n.patient_name@);
    let s2 = replace_spec(s1, "{{appointment_date}}"@, opt_or_empty(n.appointment_date));
    let s3 = replace_spec(s2, "{{appointment_time}}"@, opt_or_empty(n.appointment_time));
    let s4 = replace_spec(s3, "{{professional_name}}"@, opt_or_empty(n.professional_name));
    let s5 = replace_spec(s4, "{{treatment_name}}"@, opt_or_empty(n.treatment_name));
    let s6 = replace_spec(s5, "{{clinic_address}}"@, opt_or_empty(n.clinic_address));
    let s7 = replace_spec(s6, "{{booking_id}}"@, n.booking_id@);
    let s8 = replace_spec(s7, "{{manage_booking_url}}"@, app_url + "/my-appointments"@);
    let s9 = replace_spec(s8, "{{booking_url}}"@, app_url + "/booking"@);
    let s10 = replace_spec(s9, "{{app_url}}"@, app_url);
    let s11 = match n.hours_before {
        Some(h) => replace_spec(s10, "{{hours_before}}"@, crate::text::dec_of(h as int)),
        None => s10,
    };
    replace_spec(
        s11,
        "{{clinic_email}}"@,
        match n.clinic_email {
            Some(ref e) => e@,
            None => "soporte@nexioq.com"@,
        },
    )
}

/// Fills a notification template.
pub fn fill_template(html: &str, n: &NotificationPayload, app_url: &str) -> (r: String)
    ensures
        r@ == filled_template(html@, n, app_url@),
{
    let mut manage = app_url.to_owned();
    manage.append("/my-appointments");
    let mut booking_url = app_url.to_owned();
    booking_url.append("/booking");
    let s1 = replace_all(html, "{{patient_name}}", n.patient_name.as_str());
    let s2 = match &n.appointment_date {
        Some(d) => replace_all(s1.as_str(), "{{appointment_date}}", d.as_str()),
        None => replace_all(s1.as_str(), "{{appointment_date}}", ""),
    };
    let s3 = match &n.appointment_time {
        Some(d) => replace_all(s2.as_str(), "{{appointment_time}}", d.as_str()),
        None => replace_all(s2.as_str(), "{{appointment_time}}", ""),
    };
    let s4 = match &n.professional_name {
        Some(d) => replace_all(s3.as_str(), "{{professional_name}}", d.as_str()),
        None => replace_all(s3.as_str(), "{{professional_name}}", ""),
    };
    let s5 = match &n.treatment_name {
        Some(d) => replace_all(s4.as_str(), "{{treatment_name}}", d.as_str()),
        None => replace_all(s4.as_str(), "{{treatment_name}}", ""),
    };
    let s6 = match &n.clinic_address {
        Some(d) => replace_all(s5.as_str(), "{{clinic_address}}", d.as_str()),
        None => replace_all(s5.as_str(), "{{clinic_address}}", ""),
    };
    let s7 = replace_all(s6.as_str(), "{{booking_id}}", n.booking_id.as_str());
    let s8 = replace_all(s7.as_str(), "{{manage_booking_url}}", manage.as_str());
    let s9 = replace_all(s8.as_str(), "{{booking_url}}", booking_url.as_str());
    let s10 = replace_all(s9.as_str(), "{{app_url}}", app_url);
    let s11 = match n.hours_before {
        Some(h) => {
            let hs = crate::text::u32_to_dec(h);
            replace_all(s10.as_str(), "{{hours_before}}", hs.as_str())
        },
        None => s10,
    };
    let out = match &n.clinic_email {
        Some(e) => replace_all(s11.as_str(), "{{clinic_email}}", e.as_str()),
        None => replace_all(s11.as_str(), "{{clinic_email}}", "soporte@nexioq.com"),
    };
    proof {
        assert(Seq::<char>::empty() =~= ""@) by {
            reveal_strlit("");
        }
    }
    out
}

// ---------------------------------------------------------------------
// Reminder planning
// ---------------------------------------------------------------------

/// Everything the scheduler needs to arm the two reminders of an
/// appointment: trigger names, trigger times and trigger payloads.
pub struct ReminderPlan {
    pub schedule_name_24h: String,
    pub schedule_expr_24h: String,
    pub payload_24h: String,
    pub schedule_name_2h: String,
    pub schedule_expr_2h: String,
    pub payload_2h: String,
    pub reminder_times: Vec<String>,
    pub message: String,
}

/// `booking-{id}-{suffix}`.
pub open spec fn schedule_name_spec(id: Seq<char>, suffix: Seq<char>) -> Seq<char> {
    "booking-"@ + id + "-"@ + suffix
}

/// `at(YYYY-MM-DDTHH:MM:SS)` of a wall time.
pub open spec fn schedule_expr_spec(ts: Timestamp) -> Seq<char> {
    "at("@ + fmt_local(ts) + ")"@
}

/// The trigger payload handed to the notification sender.
pub open spec fn reminder_payload_spec(
    id: Seq<char>,
    email: Seq<char>,
    name: Seq<char>,
    hours: int,
) -> Seq<char> {
    "{\"booking_id\":\""@ + crate::errors::json_escape(id) + "\",\"hours_before\":"@
        + crate::text::dec_of(hours) + ",\"patient_email\":\""@ + crate::errors::json_escape(email)
        + "\",\"patient_name\":\""@ + crate::errors::json_escape(name) + "\",\"type\":\"reminder\"}"@
}

/// Renders `booking-{id}-{suffix}`.
fn schedule_name(id: &str, suffix: &str) -> (r: String)
    ensures
        r@ == schedule_name_spec(id@, suffix@),
{
    let mut s = String::new();
    s.append("booking-");
    s.append(id);
    s.append("-");
    s.append(suffix);
    assert(s@ =~= schedule_name_spec(id@, suffix@));
    s
}

/// Renders `at(...)`.
fn schedule_expr(ts: &Timestamp) -> (r: String)
    requires
        ts.wf(),
    ensures
        r@ == schedule_expr_spec(*ts),
{
    let mut s = String::new();
    s.append("at(");
    let body = format_local(ts);
    s.append(body.as_str());
    s.append(")");
    assert(s@ =~= schedule_expr_spec(*ts));
    s
}

/// Renders the trigger payload.
fn reminder_payload(id: &str, email: &str, name: &str, hours: u32) -> (r: String)
    ensures
        r@ == reminder_payload_spec(id@, email@, name@, hours as int),
{
    let mut s = String::new();
    s.append("{\"booking_id\":\"");
    crate::errors::push_json_escaped(&mut s, id);
    s.append("\",\"hours_before\":");
    crate::text::push_u32_dec(&mut s, hours);
    s.append(",\"patient_email\":\"");
    crate::errors::push_json_escaped(&mut s, email);
    s.append("\",\"patient_name\":\"");
    crate::errors::push_json_escaped(&mut s, name);
    s.append("\",\"type\":\"reminder\"}");
    assert(s@ =~= reminder_payload_spec(id@, email@, name@, hours as int));
    s
}

/// What reminder planning yields: reminders at T-24h and T-2h, or the
/// errors for an unparseable or too-early appointment time.
pub open spec fn reminder_plan_model(
    id: Seq<char>,
    appointment_time: Seq<char>,
) -> Result<(Timestamp, Timestamp), ApiErrV> {
    match rfc3339_parsed(appointment_time) {
        None => Err(ApiErrV::Validation("appointment_time inválido (usar ISO8601)"@)),
        Some(ts) => if ts.min_idx() - 1440 < 0 {
            Err(ApiErrV::Internal("Hora de recordatorio fuera de rango"@))
        } else {
            Ok((shift_ts(ts, -1440), shift_ts(ts, -120)))
        },
    }
}

/// Plans the two reminders of an appointment: T-24h and T-2h, with
/// scheduler trigger names `booking-{id}-24h` / `booking-{id}-2h`,
/// `at(...)` trigger expressions on the wall time, and the trigger
/// payloads for the sender.
pub fn plan_reminders(
    booking_id: &String,
    appointment_time: &String,
    patient_email: &String,
    patient_name: &String,
) -> (r: Result<ReminderPlan, ApiError>)
    ensures
        match r {
            Err(e) => reminder_plan_model(booking_id@, appointment_time@) == Err::<
                (Timestamp, Timestamp),
                ApiErrV,
            >(e@),
            Ok(plan) => reminder_plan_model(booking_id@, appointment_time@) matches Ok(times) && {
                &&& plan.schedule_name_24h@ == schedule_name_spec(booking_id@, "24h"@)
                &&& plan.schedule_expr_24h@ == schedule_expr_spec(times.0)
                &&& plan.payload_24h@ == reminder_payload_spec(
                    booking_id@,
                    patient_email@,
                    patient_name@,
                    24,
                )
                &&& plan.schedule_name_2h@ == schedule_name_spec(booking_id@, "2h"@)
                &&& plan.schedule_expr_2h@ == schedule_expr_spec(times.1)
                &&& plan.payload_2h@ == reminder_payload_spec(
                    booking_id@,
                    patient_email@,
                    patient_name@,
                    2,
                )
                &&& plan.reminder_times@.len() == 2
                &&& plan.reminder_times@[0]@ == fmt_rfc3339(times.0)
                &&& plan.reminder_times@[1]@ == fmt_rfc3339(times.1)
                &&& plan.message@ == "Recordatorios programados exitosamente"@
            },
        },
{
    let ts = match parse_rfc3339(appointment_time.as_str()) {
        Some(t) => t,
        None => {
            return Err(ApiError::Validation(lit("appointment_time inválido (usar ISO8601)")));
        },
    };
    let r24 = match sub_minutes(&ts, 1440) {
        Some(t) => t,
        None => {
            return Err(ApiError::Internal(lit("Hora de recordatorio fuera de rango")));
        },
    };
    let r2 = match sub_minutes(&ts, 120) {
        Some(t) => t,
        None => {
            return Err(ApiError::Internal(lit("Hora de recordatorio fuera de rango")));
        },
    };
    let mut reminder_times: Vec<String> = Vec::new();
    reminder_times.push(format_rfc3339(&r24));
    reminder_times.push(format_rfc3339(&r2));
    Ok(ReminderPlan {
        schedule_name_24h: schedule_name(booking_id.as_str(), "24h"),
        schedule_expr_24h: schedule_expr(&r24),
        payload_24h: reminder_payload(
            booking_id.as_str(),
            patient_email.as_str(),
            patient_name.as_str(),
            24,
        ),
        schedule_name_2h: schedule_name(booking_id.as_str(), "2h"),
        schedule_expr_2h: schedule_expr(&r2),
        payload_2h: reminder_payload(
            booking_id.as_str(),
            patient_email.as_str(),
            patient_name.as_str(),
            2,
        ),
        reminder_times,
        message: lit("Recordatorios programados exitosamente"),
    })
}

/// The health probe's body.
pub open spec fn health_body_spec(now: Timestamp) -> Seq<char> {
    "{\"service\":\"health\",\"status\":\"ok\",\"timestamp\":\""@ + fmt_rfc3339(now) + "\"}"@
}

/// Renders the health probe's body.
pub fn health_body(now: &Timestamp) -> (r: String)
    requires
        now.wf(),
    ensures
        r@ == health_body_spec(*now),
{
    let mut s = String::new();
    s.append("{\"service\":\"health\",\"status\":\"ok\",\"timestamp\":\"");
    let t = format_rfc3339(now);
    s.append(t.as_str());
    s.append("\"}");
    assert(s@ =~= health_body_spec(*now));
    s
}

} // verus!
