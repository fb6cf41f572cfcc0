//! The booking transaction coordinator.
//!
//! Owns the booking lifecycle `none → confirmed → cancelled` (with a
//! confirmed-to-confirmed reschedule of the times).  Every mutation is
//! one atomic multi-item commit against the store; a slot reservation
//! row is created and destroyed strictly in lockstep with its owning
//! booking, inside the same commit, and the insert of a slot row is
//! always conditioned on its absence — that precondition is the sole
//! mechanism resolving races.  Each operation's observable behaviour
//! (result and store after the call) equals a spec-level model
//! function; the engine's guarantees are proved over those models in
//! [`crate::laws`].

use vstd::prelude::*;
use crate::auth::{opt_view, require_tenant, require_tenant_model, res_view};
use crate::errors::{ApiError, ApiErrV};
use crate::keys::{
    booking_pk, booking_pk_spec, metadata_sk, professional_sk, professional_sk_spec, slot_pk,
    slot_pk_spec, slot_sk, slot_sk_spec, tenant_pk, tenant_pk_spec, treatment_sk,
    treatment_sk_spec,
};
use crate::store::{
    apply_op, apply_ops, attr_n, attr_s, attrs_view, cond_holds, get_attr_n, get_attr_s,
    merge_attrs, op_cond, op_key, ops_view, row_key, AttrV, AttrVal, AttrsV, CommitResult, KeyV,
    Row, Store, TxCond, TxCondV, TxOp,
};
use crate::text::{dec_u32_of, lit, parse_u32_dec};
use crate::time::{
    add_minutes, fmt_date, fmt_hm, fmt_rfc3339, format_date, format_hm, format_rfc3339,
    idx_in_range, parse_rfc3339, rfc3339_parsed, shift_ts, Timestamp,
};

verus! {

/// The payload of a create request.
pub struct CreateBookingRequest {
    pub tenant_id: String,
    pub site_id: String,
    pub professional_id: String,
    pub treatment_id: String,
    pub start_time: String,
    pub patient_name: String,
    pub patient_email: String,
}

pub struct CreateReqV {
    pub tenant_id: Seq<char>,
    pub site_id: Seq<char>,
    pub professional_id: Seq<char>,
    pub treatment_id: Seq<char>,
    pub start_time: Seq<char>,
    pub patient_name: Seq<char>,
    pub patient_email: Seq<char>,
}

impl View for CreateBookingRequest {
    type V = CreateReqV;

    open spec fn view(&self) -> CreateReqV {
        CreateReqV {
            tenant_id: self.tenant_id@,
            site_id: self.site_id@,
            professional_id: self.professional_id@,
            treatment_id: self.treatment_id@,
            start_time: self.start_time@,
            patient_name: self.patient_name@,
            patient_email: self.patient_email@,
        }
    }
}

/// A booking as returned to callers.
pub struct Booking {
    pub id: String,
    pub tenant_id: String,
    pub site_id: String,
    pub professional_id: String,
    pub treatment_id: String,
    pub start_time: String,
    pub end_time: String,
    pub patient_name: String,
    pub patient_email: String,
    pub status: String,
    pub created_at: String,
}

pub struct BookingV {
    pub id: Seq<char>,
    pub tenant_id: Seq<char>,
    pub site_id: Seq<char>,
    pub professional_id: Seq<char>,
    pub treatment_id: Seq<char>,
    pub start_time: Seq<char>,
    pub end_time: Seq<char>,
    pub patient_name: Seq<char>,
    pub patient_email: Seq<char>,
    pub status: Seq<char>,
    pub created_at: Seq<char>,
}

impl View for Booking {
    type V = BookingV;

    open spec fn view(&self) -> BookingV {
        BookingV {
            id: self.id@,
            tenant_id: self.tenant_id@,
            site_id: self.site_id@,
            professional_id: self.professional_id@,
            treatment_id: self.treatment_id@,
            start_time: self.start_time@,
            end_time: self.end_time@,
            patient_name: self.patient_name@,
            patient_email: self.patient_email@,
            status: self.status@,
            created_at: self.created_at@,
        }
    }
}

// ---------------------------------------------------------------------
// Validation
// ---------------------------------------------------------------------

/// Identifier length rule shared by the request's id fields.
pub open spec fn id_len_ok(s: Seq<char>) -> bool {
    1 <= s.len() <= 50
}

pub open spec fn create_req_valid(q: CreateReqV) -> bool {
    &&& id_len_ok(q.tenant_id)
    &&& id_len_ok(q.site_id)
    &&& id_len_ok(q.professional_id)
    &&& id_len_ok(q.treatment_id)
}

/// Checks one id field's length, in characters.
pub fn id_len_ok_x(s: &String) -> (r: bool)
    ensures
        r == id_len_ok(s@),
{
    let n = s.as_str().unicode_len();
    1 <= n && n <= 50
}

/// Checks the whole create payload.
pub fn validate_create_request(req: &CreateBookingRequest) -> (r: bool)
    ensures
        r == create_req_valid(req@),
{
    id_len_ok_x(&req.tenant_id) && id_len_ok_x(&req.site_id) && id_len_ok_x(&req.professional_id)
        && id_len_ok_x(&req.treatment_id)
}

// ---------------------------------------------------------------------
// Treatment duration lookup
// ---------------------------------------------------------------------

/// What the duration lookup yields: `NotFound` when the treatment row
/// is absent; otherwise the `durationMinutes` number attribute, with a
/// deliberate silent default of 45 when the attribute is missing or
/// unreadable, pending product clarification.
pub open spec fn treatment_duration_model(
    m: Map<KeyV, AttrsV>,
    tenant: Seq<char>,
    treatment: Seq<char>,
) -> Result<u32, ApiErrV> {
    let k = (tenant_pk_spec(tenant), treatment_sk_spec(treatment));
    if !m.dom().contains(k) {
        Err(ApiErrV::NotFound("Tratamiento no encontrado"@))
    } else {
        match attr_n(m[k], "durationMinutes"@) {
            None => Ok(45),
            Some(s) => match dec_u32_of(s) {
                Some(v) => Ok(v),
                None => Ok(45),
            },
        }
    }
}

/// Like the duration, for `bufferMinutes` with a default of 0.
pub open spec fn treatment_buffer_model(
    m: Map<KeyV, AttrsV>,
    tenant: Seq<char>,
    treatment: Seq<char>,
) -> Result<u32, ApiErrV> {
    let k = (tenant_pk_spec(tenant), treatment_sk_spec(treatment));
    if !m.dom().contains(k) {
        Err(ApiErrV::NotFound("Tratamiento no encontrado"@))
    } else {
        match attr_n(m[k], "bufferMinutes"@) {
            None => Ok(0),
            Some(s) => match dec_u32_of(s) {
                Some(v) => Ok(v),
                None => Ok(0),
            },
        }
    }
}

/// Reads a treatment's duration in minutes.
pub fn fetch_treatment_duration_minutes(store: &Store, tenant_id: &str, treatment_id: &str) -> (r:
    Result<u32, ApiError>)
    requires
        store.wf(),
    ensures
        match r {
            Ok(v) => treatment_duration_model(store@, tenant_id@, treatment_id@) == Ok::<
                u32,
                ApiErrV,
            >(v),
            Err(e) => treatment_duration_model(store@, tenant_id@, treatment_id@) == Err::<
                u32,
                ApiErrV,
            >(e@),
        },
{
    let pk = tenant_pk(tenant_id);
    let sk = treatment_sk(treatment_id);
    match store.get(pk.as_str(), sk.as_str()) {
        None => Err(ApiError::NotFound(lit("Tratamiento no encontrado"))),
        Some(attrs) => match get_attr_n(attrs, "durationMinutes") {
            Some(n) => match parse_u32_dec(n.as_str()) {
                Some(v) => Ok(v),
                None => Ok(45),
            },
            None => Ok(45),
        },
    }
}

/// Reads a treatment's buffer in minutes.
pub fn fetch_treatment_buffer_minutes(store: &Store, tenant_id: &str, treatment_id: &str) -> (r:
    Result<u32, ApiError>)
    requires
        store.wf(),
    ensures
        match r {
            Ok(v) => treatment_buffer_model(store@, tenant_id@, treatment_id@) == Ok::<
                u32,
                ApiErrV,
            >(v),
            Err(e) => treatment_buffer_model(store@, tenant_id@, treatment_id@) == Err::<
                u32,
                ApiErrV,
            >(e@),
        },
{
    let pk = tenant_pk(tenant_id);
    let sk = treatment_sk(treatment_id);
    match store.get(pk.as_str(), sk.as_str()) {
        None => Err(ApiError::NotFound(lit("Tratamiento no encontrado"))),
        Some(attrs) => match get_attr_n(attrs, "bufferMinutes") {
            Some(n) => match parse_u32_dec(n.as_str()) {
                Some(v) => Ok(v),
                None => Ok(0),
            },
            None => Ok(0),
        },
    }
}

// ---------------------------------------------------------------------
// Create
// ---------------------------------------------------------------------

/// The slot reservation key claimed by a booking at `start`.
pub open spec fn slot_key_spec(
    tenant: Seq<char>,
    site: Seq<char>,
    professional: Seq<char>,
    start: Timestamp,
) -> KeyV {
    (
        slot_pk_spec(tenant, site, fmt_date(start)),
        slot_sk_spec(fmt_hm(start), professional),
    )
}

/// The booking metadata key.
pub open spec fn booking_key_spec(id: Seq<char>) -> KeyV {
    (booking_pk_spec(id), "METADATA"@)
}

/// The attributes of a slot reservation row.
pub open spec fn slot_attrs_spec(id: Seq<char>, now_str: Seq<char>) -> AttrsV {
    seq![
        ("bookingId"@, AttrV::S(id)),
        ("status"@, AttrV::S("reserved"@)),
        ("createdAt"@, AttrV::S(now_str)),
    ]
}

/// The attributes of a booking metadata row.
pub open spec fn booking_attrs_spec(b: BookingV) -> AttrsV {
    seq![
        ("GSI1PK"@, AttrV::S(tenant_pk_spec(b.tenant_id))),
        ("GSI1SK"@, AttrV::S(booking_pk_spec(b.id))),
        ("GSI3PK"@, AttrV::S(professional_sk_spec(b.professional_id))),
        ("GSI3SK"@, AttrV::S(b.start_time)),
        ("id"@, AttrV::S(b.id)),
        ("tenantId"@, AttrV::S(b.tenant_id)),
        ("siteId"@, AttrV::S(b.site_id)),
        ("professionalId"@, AttrV::S(b.professional_id)),
        ("treatmentId"@, AttrV::S(b.treatment_id)),
        ("startTime"@, AttrV::S(b.start_time)),
        ("endTime"@, AttrV::S(b.end_time)),
        ("patientName"@, AttrV::S(b.patient_name)),
        ("patientEmail"@, AttrV::S(b.patient_email)),
        ("status"@, AttrV::S(b.status)),
        ("createdAt"@, AttrV::S(b.created_at)),
    ]
}

/// The booking a successful create returns.
pub open spec fn made_booking(
    q: CreateReqV,
    tenant: Seq<char>,
    id: Seq<char>,
    start: Timestamp,
    end: Timestamp,
    now: Timestamp,
) -> BookingV {
    BookingV {
        id: id,
        tenant_id: tenant,
        site_id: q.site_id,
        professional_id: q.professional_id,
        treatment_id: q.treatment_id,
        start_time: fmt_rfc3339(start),
        end_time: fmt_rfc3339(end),
        patient_name: q.patient_name,
        patient_email: q.patient_email,
        status: "confirmed"@,
        created_at: fmt_rfc3339(now),
    }
}

/// Create, once the acting tenant is resolved and the payload's tenant
/// matches it.
pub open spec fn create_checked_model(
    m: Map<KeyV, AttrsV>,
    tenant: Seq<char>,
    q: CreateReqV,
    id: Seq<char>,
    now: Timestamp,
) -> (Result<BookingV, ApiErrV>, Map<KeyV, AttrsV>) {
    match rfc3339_parsed(q.start_time) {
        None => (Err(ApiErrV::Validation("start_time inválido (usar ISO8601)"@)), m),
        Some(start) => match treatment_duration_model(m, tenant, q.treatment_id) {
            Err(e) => (Err(e), m),
            Ok(dur) => match treatment_buffer_model(m, tenant, q.treatment_id) {
                Err(e) => (Err(e), m),
                Ok(buf) => if !idx_in_range(start.min_idx() + dur + buf) {
                    (Err(ApiErrV::Internal("Hora de fin fuera de rango"@)), m)
                } else {
                    let end = shift_ts(start, dur + buf);
                    let sk = slot_key_spec(tenant, q.site_id, q.professional_id, start);
                    if m.dom().contains(sk) {
                        (
                            Err(ApiErrV::Conflict(
                                "Slot no disponible (reservado por otro usuario)"@,
                            )),
                            m,
                        )
                    } else {
                        let b = made_booking(q, tenant, id, start, end, now);
                        (
                            Ok(b),
                            m.insert(sk, slot_attrs_spec(id, fmt_rfc3339(now))).insert(
                                booking_key_spec(id),
                                booking_attrs_spec(b),
                            ),
                        )
                    }
                },
            },
        },
    }
}

/// The full create transaction: payload validation, tenant isolation,
/// then the conditioned two-item commit.
pub open spec fn create_model(
    m: Map<KeyV, AttrsV>,
    auth: Option<Seq<char>>,
    q: CreateReqV,
    id: Seq<char>,
    now: Timestamp,
) -> (Result<BookingV, ApiErrV>, Map<KeyV, AttrsV>) {
    if !create_req_valid(q) {
        (Err(ApiErrV::Validation("Validación fallida"@)), m)
    } else {
        match require_tenant_model(auth) {
            Err(e) => (Err(e), m),
            Ok(tenant) => if q.tenant_id != tenant {
                (
                    Err(ApiErrV::Forbidden("tenant_id del payload no coincide con el token"@)),
                    m,
                )
            } else {
                create_checked_model(m, tenant, q, id, now)
            },
        }
    }
}

/// Creates a booking: one atomic commit inserting the slot reservation
/// (conditioned on its absence) and the booking metadata.  Exactly one
/// of two racing creates for the same slot key can succeed; the loser
/// observes `Conflict` and the store is left unchanged.
#[verifier::rlimit(100)]
pub fn create_booking(
    store: &mut Store,
    auth: Option<&str>,
    req: &CreateBookingRequest,
    booking_id: &String,
    now: &Timestamp,
) -> (r: Result<Booking, ApiError>)
    requires
        old(store).wf(),
        now.wf(),
    ensures
        final(store).wf(),
        final(store)@ == create_model(old(store)@, opt_view(auth), req@, booking_id@, *now).1,
        res_view(r) == create_model(old(store)@, opt_view(auth), req@, booking_id@, *now).0,
{
    if !validate_create_request(req) {
        return Err(ApiError::Validation(lit("Validación fallida")));
    }
    let tenant = match require_tenant(auth) {
        Ok(t) => t,
        Err(e) => {
            return Err(e);
        },
    };
    if !crate::text::str_eq(tenant.as_str(), req.tenant_id.as_str()) {
        return Err(ApiError::Forbidden(lit("tenant_id del payload no coincide con el token")));
    }
    let start = match parse_rfc3339(req.start_time.as_str()) {
        Some(t) => t,
        None => {
            return Err(ApiError::Validation(lit("start_time inválido (usar ISO8601)")));
        },
    };
    let dur = match fetch_treatment_duration_minutes(store, tenant.as_str(), req.treatment_id.as_str()) {
        Ok(v) => v,
        Err(e) => {
            return Err(e);
        },
    };
    let buf = match fetch_treatment_buffer_minutes(store, tenant.as_str(), req.treatment_id.as_str()) {
        Ok(v) => v,
        Err(e) => {
            return Err(e);
        },
    };
    let end = match add_minutes(&start, dur as u64 + buf as u64) {
        Some(t) => t,
        None => {
            return Err(ApiError::Internal(lit("Hora de fin fuera de rango")));
        },
    };
    let date_str = format_date(&start);
    let hm_str = format_hm(&start);
    let now_str = format_rfc3339(now);
    let start_str = format_rfc3339(&start);
    let end_str = format_rfc3339(&end);
    let spk = slot_pk(tenant.as_str(), req.site_id.as_str(), date_str.as_str());
    let ssk = slot_sk(hm_str.as_str(), req.professional_id.as_str());
    let bpk = booking_pk(booking_id.as_str());

    let slot_attrs: Vec<(String, AttrVal)> = vec![
        (lit("bookingId"), AttrVal::S(booking_id.clone())),
        (lit("status"), AttrVal::S(lit("reserved"))),
        (lit("createdAt"), AttrVal::S(now_str.clone())),
    ];
    let booking_attrs: Vec<(String, AttrVal)> = vec![
        (lit("GSI1PK"), AttrVal::S(tenant_pk(tenant.as_str()))),
        (lit("GSI1SK"), AttrVal::S(booking_pk(booking_id.as_str()))),
        (lit("GSI3PK"), AttrVal::S(professional_sk(req.professional_id.as_str()))),
        (lit("GSI3SK"), AttrVal::S(start_str.clone())),
        (lit("id"), AttrVal::S(booking_id.clone())),
        (lit("tenantId"), AttrVal::S(tenant.clone())),
        (lit("siteId"), AttrVal::S(req.site_id.clone())),
        (lit("professionalId"), AttrVal::S(req.professional_id.clone())),
        (lit("treatmentId"), AttrVal::S(req.treatment_id.clone())),
        (lit("startTime"), AttrVal::S(start_str.clone())),
        (lit("endTime"), AttrVal::S(end_str.clone())),
        (lit("patientName"), AttrVal::S(req.patient_name.clone())),
        (lit("patientEmail"), AttrVal::S(req.patient_email.clone())),
        (lit("status"), AttrVal::S(lit("confirmed"))),
        (lit("createdAt"), AttrVal::S(now_str.clone())),
    ];

    let ghost b = made_booking(req@, tenant@, booking_id@, start, end, *now);
    proof {
        assert(attrs_view(slot_attrs@) =~= slot_attrs_spec(booking_id@, fmt_rfc3339(*now)));
        assert(attrs_view(booking_attrs@) =~= booking_attrs_spec(b));
    }

    let ops: Vec<TxOp> = vec![
        TxOp::Put { pk: spk, sk: ssk, attrs: slot_attrs, cond: TxCond::Absent },
        TxOp::Put { pk: bpk, sk: metadata_sk(), attrs: booking_attrs, cond: TxCond::Always },
    ];
    let ghost opsv = ops_view(ops@);
    let ghost skey = slot_key_spec(tenant@, req.site_id@, req.professional_id@, start);
    let ghost bkey = booking_key_spec(booking_id@);
    proof {
        assert(opsv.len() == 2);
        assert(op_key(opsv[0]) == skey);
        assert(op_cond(opsv[0]) == TxCondV::Absent);
        assert(op_key(opsv[1]) == bkey);
        assert(op_cond(opsv[1]) == TxCondV::Always);
    }
    let ghost m0 = store@;
    match store.atomic_commit(&ops) {
        CommitResult::Committed => {
            proof {
                assert(cond_holds(m0, op_key(opsv[0]), op_cond(opsv[0])));
                assert(!m0.dom().contains(skey));
                let a0 = slot_attrs_spec(booking_id@, fmt_rfc3339(*now));
                let a1 = booking_attrs_spec(b);
                let m1 = apply_op(m0, opsv[0]);
                assert(m1 == m0.insert(skey, a0));
                let rest = opsv.drop_first();
                assert(rest =~= seq![opsv[1]]);
                assert(apply_ops(m0, opsv) == apply_ops(m1, rest));
                assert(rest[0] == opsv[1]);
                assert(apply_op(m1, rest[0]) == m1.insert(bkey, a1));
                assert(rest.drop_first().len() == 0);
                assert(apply_ops(m1, rest) == apply_ops(apply_op(m1, rest[0]), rest.drop_first()));
                assert(apply_ops(apply_op(m1, rest[0]), rest.drop_first()) == apply_op(m1, rest[0]));
                assert(apply_ops(m0, opsv) == m0.insert(skey, a0).insert(bkey, a1));
            }
            let booking = Booking {
                id: booking_id.clone(),
                tenant_id: tenant,
                site_id: req.site_id.clone(),
                professional_id: req.professional_id.clone(),
                treatment_id: req.treatment_id.clone(),
                start_time: start_str,
                end_time: end_str,
                patient_name: req.patient_name.clone(),
                patient_email: req.patient_email.clone(),
                status: lit("confirmed"),
                created_at: now_str,
            };
            proof {
                assert(booking@ == b);
            }
            Ok(booking)
        },
        CommitResult::Aborted(i) => {
            proof {
                if i != 0 {
                    assert(cond_holds(m0, op_key(opsv[i as int]), op_cond(opsv[i as int])));
                }
                assert(i == 0);
                assert(m0.dom().contains(skey));
            }
            Err(ApiError::Conflict(lit("Slot no disponible (reservado por otro usuario)")))
        },
    }
}

// ---------------------------------------------------------------------
// Cancel
// ---------------------------------------------------------------------

/// Acknowledgement of a cancellation.
pub struct CancelAck {
    pub message: String,
    pub booking_id: String,
    pub cancelled_at: String,
}

pub struct CancelAckV {
    pub message: Seq<char>,
    pub booking_id: Seq<char>,
    pub cancelled_at: Seq<char>,
}

impl View for CancelAck {
    type V = CancelAckV;

    open spec fn view(&self) -> CancelAckV {
        CancelAckV {
            message: self.message@,
            booking_id: self.booking_id@,
            cancelled_at: self.cancelled_at@,
        }
    }
}

/// Whether an item's `status` string attribute exists and differs from
/// `v` — the shape of the idempotency guard.
pub open spec fn status_ne(a: AttrsV, v: Seq<char>) -> bool {
    match attr_s(a, "status"@) {
        Some(s) => s != v,
        None => false,
    }
}

/// The attribute updates a cancellation writes.
pub open spec fn cancel_sets_spec(now_str: Seq<char>) -> AttrsV {
    seq![("status"@, AttrV::S("cancelled"@)), ("cancelledAt"@, AttrV::S(now_str))]
}

/// The full cancel transaction: load, tenant check, then one atomic
/// commit that flips the status (conditioned on it not already being
/// `cancelled`) and deletes the slot reservation.
pub open spec fn cancel_model(
    m: Map<KeyV, AttrsV>,
    auth: Option<Seq<char>>,
    id: Seq<char>,
    now: Timestamp,
) -> (Result<CancelAckV, ApiErrV>, Map<KeyV, AttrsV>) {
    let bkey = booking_key_spec(id);
    if !m.dom().contains(bkey) {
        (Err(ApiErrV::NotFound("Booking no encontrado"@)), m)
    } else {
        let a = m[bkey];
        match attr_s(a, "tenantId"@) {
            None => (Err(ApiErrV::Internal("tenantId no encontrado"@)), m),
            Some(tenant_stored) => match require_tenant_model(auth) {
                Err(e) => (Err(e), m),
                Ok(tok) => if tok != tenant_stored {
                    (Err(ApiErrV::Forbidden("No puedes cancelar reservas de otro tenant"@)), m)
                } else {
                    match attr_s(a, "siteId"@) {
                        None => (Err(ApiErrV::Internal("siteId no encontrado"@)), m),
                        Some(site) => match attr_s(a, "professionalId"@) {
                            None => (Err(ApiErrV::Internal("professionalId no encontrado"@)), m),
                            Some(prof) => match attr_s(a, "startTime"@) {
                                None => (Err(ApiErrV::Internal("startTime no encontrado"@)), m),
                                Some(sts) => match rfc3339_parsed(sts) {
                                    None => (Err(ApiErrV::Internal("startTime inválido"@)), m),
                                    Some(start) => if !status_ne(a, "cancelled"@) {
                                        (Err(ApiErrV::Conflict("Booking ya está cancelado"@)), m)
                                    } else {
                                        let skey = slot_key_spec(tenant_stored, site, prof, start);
                                        let now_str = fmt_rfc3339(now);
                                        (
                                            Ok(CancelAckV {
                                                message: "Booking cancelado exitosamente"@,
                                                booking_id: id,
                                                cancelled_at: now_str,
                                            }),
                                            m.insert(
                                                bkey,
                                                merge_attrs(a, cancel_sets_spec(now_str)),
                                            ).remove(skey),
                                        )
                                    },
                                },
                            },
                        },
                    }
                },
            },
        }
    }
}

/// Cancels a booking: flips `confirmed → cancelled` and removes the
/// slot reservation in one atomic commit; a concurrent duplicate
/// cancel loses the status precondition and observes `Conflict`.
#[verifier::rlimit(100)]
pub fn cancel_booking(
    store: &mut Store,
    auth: Option<&str>,
    booking_id: &String,
    now: &Timestamp,
) -> (r: Result<CancelAck, ApiError>)
    requires
        old(store).wf(),
        now.wf(),
    ensures
        final(store).wf(),
        final(store)@ == cancel_model(old(store)@, opt_view(auth), booking_id@, *now).1,
        res_view(r) == cancel_model(old(store)@, opt_view(auth), booking_id@, *now).0,
{
    let bpk = booking_pk(booking_id.as_str());
    let msk = metadata_sk();
    let attrs = match store.get(bpk.as_str(), msk.as_str()) {
        Some(a) => a,
        None => {
            return Err(ApiError::NotFound(lit("Booking no encontrado")));
        },
    };
    let tenant_stored = match get_attr_s(attrs, "tenantId") {
        Some(t) => t,
        None => {
            return Err(ApiError::Internal(lit("tenantId no encontrado")));
        },
    };
    let tok = match require_tenant(auth) {
        Ok(t) => t,
        Err(e) => {
            return Err(e);
        },
    };
    if !crate::text::str_eq(tok.as_str(), tenant_stored.as_str()) {
        return Err(ApiError::Forbidden(lit("No puedes cancelar reservas de otro tenant")));
    }
    let site = match get_attr_s(attrs, "siteId") {
        Some(s) => s,
        None => {
            return Err(ApiError::Internal(lit("siteId no encontrado")));
        },
    };
    let prof = match get_attr_s(attrs, "professionalId") {
        Some(s) => s,
        None => {
            return Err(ApiError::Internal(lit("professionalId no encontrado")));
        },
    };
    let sts = match get_attr_s(attrs, "startTime") {
        Some(s) => s,
        None => {
            return Err(ApiError::Internal(lit("startTime no encontrado")));
        },
    };
    let start = match parse_rfc3339(sts.as_str()) {
        Some(t) => t,
        None => {
            return Err(ApiError::Internal(lit("startTime inválido")));
        },
    };
    let now_str = format_rfc3339(now);
    let spk = slot_pk(tenant_stored.as_str(), site.as_str(), format_date(&start).as_str());
    let ssk = slot_sk(format_hm(&start).as_str(), prof.as_str());
    let sets: Vec<(String, AttrVal)> = vec![
        (lit("status"), AttrVal::S(lit("cancelled"))),
        (lit("cancelledAt"), AttrVal::S(now_str.clone())),
    ];
    proof {
        assert(attrs_view(sets@) =~= cancel_sets_spec(fmt_rfc3339(*now)));
    }
    let ops: Vec<TxOp> = vec![
        TxOp::Update {
            pk: bpk,
            sk: metadata_sk(),
            sets,
            cond: TxCond::StatusNe(lit("cancelled")),
        },
        TxOp::Delete { pk: spk, sk: ssk },
    ];
    let ghost opsv = ops_view(ops@);
    let ghost bkey = booking_key_spec(booking_id@);
    let ghost skey = slot_key_spec(tenant_stored@, site@, prof@, start);
    let ghost m0 = store@;
    proof {
        assert(opsv.len() == 2);
        assert(op_key(opsv[0]) == bkey);
        assert(op_cond(opsv[0]) == TxCondV::StatusNe("cancelled"@));
        assert(op_cond(opsv[1]) == TxCondV::Always);
    }
    match store.atomic_commit(&ops) {
        CommitResult::Committed => {
            proof {
                assert(cond_holds(m0, op_key(opsv[0]), op_cond(opsv[0])));
                assert(status_ne(m0[bkey], "cancelled"@));
                let m1 = apply_op(m0, opsv[0]);
                assert(m1 == m0.insert(bkey, merge_attrs(m0[bkey], cancel_sets_spec(
                    fmt_rfc3339(*now),
                ))));
                let rest = opsv.drop_first();
                assert(rest =~= seq![opsv[1]]);
                assert(apply_ops(m0, opsv) == apply_ops(m1, rest));
                assert(rest[0] == opsv[1]);
                assert(apply_op(m1, rest[0]) == m1.remove(skey));
                assert(rest.drop_first().len() == 0);
                assert(apply_ops(m1, rest) == apply_ops(apply_op(m1, rest[0]), rest.drop_first()));
                assert(apply_ops(apply_op(m1, rest[0]), rest.drop_first()) == apply_op(m1, rest[0]));
            }
            Ok(CancelAck {
                message: lit("Booking cancelado exitosamente"),
                booking_id: booking_id.clone(),
                cancelled_at: now_str,
            })
        },
        CommitResult::Aborted(i) => {
            proof {
                if i != 0 {
                    assert(cond_holds(m0, op_key(opsv[i as int]), op_cond(opsv[i as int])));
                }
                assert(i == 0);
                assert(!status_ne(m0[bkey], "cancelled"@));
            }
            Err(ApiError::Conflict(lit("Booking ya está cancelado")))
        },
    }
}

/// Creates a booking with a fresh identifier at the current moment,
/// as the request handler does.
pub fn create_booking_now(
    store: &mut Store,
    auth: Option<&str>,
    req: &CreateBookingRequest,
) -> (r: Result<Booking, ApiError>)
    requires
        old(store).wf(),
    ensures
        final(store).wf(),
        exists|id: Seq<char>, now: Timestamp|
            {
                let out = #[trigger] create_model(old(store)@, opt_view(auth), req@, id, now);
                &&& now.wf()
                &&& id.len() == 36
                &&& final(store)@ == out.1
                &&& res_view(r) == out.0
            },
{
    let id = crate::ids::new_uuid();
    let now = crate::time::now_utc();
    let r = create_booking(store, auth, req, &id, &now);
    proof {
        let out = create_model(old(store)@, opt_view(auth), req@, id@, now);
        assert(now.wf() && id@.len() == 36 && final(store)@ == out.1 && res_view(r) == out.0);
    }
    r
}

/// Cancels a booking at the current moment, as the request handler
/// does.
pub fn cancel_booking_now(store: &mut Store, auth: Option<&str>, booking_id: &String) -> (r:
    Result<CancelAck, ApiError>)
    requires
        old(store).wf(),
    ensures
        final(store).wf(),
        exists|now: Timestamp|
            {
                let out = #[trigger] cancel_model(old(store)@, opt_view(auth), booking_id@, now);
                &&& now.wf()
                &&& final(store)@ == out.1
                &&& res_view(r) == out.0
            },
{
    let now = crate::time::now_utc();
    let r = cancel_booking(store, auth, booking_id, &now);
    proof {
        let out = cancel_model(old(store)@, opt_view(auth), booking_id@, now);
        assert(now.wf() && final(store)@ == out.1 && res_view(r) == out.0);
    }
    r
}

/// Reschedules a booking at the current moment, as the request
/// handler does.
pub fn update_booking_now(
    store: &mut Store,
    auth: Option<&str>,
    booking_id: &String,
    payload: &UpdateBookingRequest,
) -> (r: Result<RescheduleAck, ApiError>)
    requires
        old(store).wf(),
    ensures
        final(store).wf(),
        exists|now: Timestamp|
            {
                let out = #[trigger] reschedule_model(
                    old(store)@,
                    opt_view(auth),
                    booking_id@,
                    payload@,
                    now,
                );
                &&& now.wf()
                &&& final(store)@ == out.1
                &&& res_view(r) == out.0
            },
{
    let now = crate::time::now_utc();
    let r = update_booking(store, auth, booking_id, payload, &now);
    proof {
        let out = reschedule_model(old(store)@, opt_view(auth), booking_id@, payload@, now);
        assert(now.wf() && final(store)@ == out.1 && res_view(r) == out.0);
    }
    r
}

// ---------------------------------------------------------------------
// Listing
// ---------------------------------------------------------------------

/// The booking a metadata item denotes, when every field is present
/// as a string attribute; the listing skips items missing a field.
#[verifier::opaque]
pub open spec fn booking_of_attrs(a: AttrsV) -> Option<BookingV> {
    if attr_s(a, "id"@) is Some && attr_s(a, "tenantId"@) is Some && attr_s(a, "siteId"@) is Some
        && attr_s(a, "professionalId"@) is Some && attr_s(a, "treatmentId"@) is Some && attr_s(
        a,
        "startTime"@,
    ) is Some && attr_s(a, "endTime"@) is Some && attr_s(a, "patientName"@) is Some && attr_s(
        a,
        "patientEmail"@,
    ) is Some && attr_s(a, "status"@) is Some && attr_s(a, "createdAt"@) is Some {
        Some(BookingV {
            id: attr_s(a, "id"@)->Some_0,
            tenant_id: attr_s(a, "tenantId"@)->Some_0,
            site_id: attr_s(a, "siteId"@)->Some_0,
            professional_id: attr_s(a, "professionalId"@)->Some_0,
            treatment_id: attr_s(a, "treatmentId"@)->Some_0,
            start_time: attr_s(a, "startTime"@)->Some_0,
            end_time: attr_s(a, "endTime"@)->Some_0,
            patient_name: attr_s(a, "patientName"@)->Some_0,
            patient_email: attr_s(a, "patientEmail"@)->Some_0,
            status: attr_s(a, "status"@)->Some_0,
            created_at: attr_s(a, "createdAt"@)->Some_0,
        })
    } else {
        None
    }
}

/// Reads a booking out of a metadata item.
pub fn booking_from_attrs(attrs: &Vec<(String, AttrVal)>) -> (r: Option<Booking>)
    ensures
        match r {
            Some(b) => booking_of_attrs(attrs_view(attrs@)) == Some(b@),
            None => booking_of_attrs(attrs_view(attrs@)) is None,
        },
{
    proof {
        reveal(booking_of_attrs);
    }
    let id = get_attr_s(attrs, "id");
    let tenant_id = get_attr_s(attrs, "tenantId");
    let site_id = get_attr_s(attrs, "siteId");
    let professional_id = get_attr_s(attrs, "professionalId");
    let treatment_id = get_attr_s(attrs, "treatmentId");
    let start_time = get_attr_s(attrs, "startTime");
    let end_time = get_attr_s(attrs, "endTime");
    let patient_name = get_attr_s(attrs, "patientName");
    let patient_email = get_attr_s(attrs, "patientEmail");
    let status = get_attr_s(attrs, "status");
    let created_at = get_attr_s(attrs, "createdAt");
    match (id, tenant_id, site_id, professional_id, treatment_id, start_time, end_time,
        patient_name, patient_email, status, created_at) {
        (
            Some(id),
            Some(tenant_id),
            Some(site_id),
            Some(professional_id),
            Some(treatment_id),
            Some(start_time),
            Some(end_time),
            Some(patient_name),
            Some(patient_email),
            Some(status),
            Some(created_at),
        ) => Some(Booking {
            id,
            tenant_id,
            site_id,
            professional_id,
            treatment_id,
            start_time,
            end_time,
            patient_name,
            patient_email,
            status,
            created_at,
        }),
        _ => None,
    }
}

/// Whether booking `b` is read off some item of `m` whose tenant
/// index key is `t`'s.
pub open spec fn listed_from(m: Map<KeyV, AttrsV>, t: Seq<char>, b: Booking) -> bool {
    exists|k: KeyV|
        #[trigger] m.dom().contains(k) && attr_s(m[k], "GSI1PK"@) == Some(tenant_pk_spec(t))
            && booking_of_attrs(m[k]) == Some(b@)
}

/// Whether the booking denoted by `attrs` appears in `v`.
pub open spec fn listed_in(v: Seq<Booking>, attrs: AttrsV) -> bool {
    exists|i: int| 0 <= i < v.len() && Some((#[trigger] v[i])@) == booking_of_attrs(attrs)
}

/// What a correct listing for tenant `t` contains: every booking read
/// from a metadata item whose tenant index key is `t`'s, each at least
/// once, and nothing else.
pub open spec fn listing_ok(m: Map<KeyV, AttrsV>, t: Seq<char>, v: Seq<Booking>) -> bool {
    &&& forall|i: int| 0 <= i < v.len() ==> listed_from(m, t, #[trigger] v[i])
    &&& forall|k: KeyV|
        #[trigger] m.dom().contains(k) && attr_s(m[k], "GSI1PK"@) == Some(tenant_pk_spec(t))
            && booking_of_attrs(m[k]) is Some ==> listed_in(v, m[k])
}

proof fn lemma_listing_complete(
    m: Map<KeyV, AttrsV>,
    t: Seq<char>,
    rows: Seq<Row>,
    out: Seq<Booking>,
)
    requires
        forall|k: KeyV|
            #[trigger] m.dom().contains(k) && attr_s(m[k], "GSI1PK"@) == Some(tenant_pk_spec(t))
                ==> exists|j: int| 0 <= j < rows.len() && row_key((#[trigger] rows[j])@) == k,
        forall|j: int|
            0 <= j < rows.len() ==> {
                let rv = (#[trigger] rows[j])@;
                &&& m.dom().contains(row_key(rv))
                &&& m[row_key(rv)] == rv.attrs
            },
        forall|j: int|
            0 <= j < rows.len() && booking_of_attrs((#[trigger] rows[j])@.attrs) is Some
                ==> exists|a: int|
                0 <= a < out.len() && Some((#[trigger] out[a])@) == booking_of_attrs(
                    rows[j]@.attrs,
                ),
    ensures
        forall|k: KeyV|
            #[trigger] m.dom().contains(k) && attr_s(m[k], "GSI1PK"@) == Some(tenant_pk_spec(t))
                && booking_of_attrs(m[k]) is Some ==> listed_in(out, m[k]),
{
    assert forall|k: KeyV|
        #[trigger] m.dom().contains(k) && attr_s(m[k], "GSI1PK"@) == Some(tenant_pk_spec(t))
            && booking_of_attrs(m[k]) is Some implies listed_in(out, m[k]) by {
        let j = choose|j: int| 0 <= j < rows.len() && row_key((#[trigger] rows[j])@) == k;
        assert(rows[j]@.attrs == m[k]);
        assert(booking_of_attrs(rows[j]@.attrs) is Some);
        let a = choose|a: int|
            0 <= a < out.len() && Some((#[trigger] out[a])@) == booking_of_attrs(
                rows[j]@.attrs,
            );
        assert(Some(out[a]@) == booking_of_attrs(m[k]));
    }
}

/// Lists the acting tenant's bookings: every metadata item whose
/// tenant index key matches the token's tenant and whose fields are
/// complete appears exactly once; nothing of another tenant appears.
#[verifier::rlimit(100)]
#[verifier::spinoff_prover]
pub fn list_bookings(store: &Store, auth: Option<&str>) -> (r: Result<Vec<Booking>, ApiError>)
    requires
        store.wf(),
    ensures
        match r {
            Err(e) => require_tenant_model(opt_view(auth)) == Err::<Seq<char>, ApiErrV>(e@),
            Ok(v) => require_tenant_model(opt_view(auth)) matches Ok(t) && listing_ok(
                store@,
                t,
                v@,
            ),
        },
{
    let tenant = match require_tenant(auth) {
        Ok(t) => t,
        Err(e) => {
            return Err(e);
        },
    };
    let gsi1pk = tenant_pk(tenant.as_str());
    let rows = store.scan_attr_eq("GSI1PK", gsi1pk.as_str());
    let mut out: Vec<Booking> = Vec::new();
    let ghost mut gkeys: Seq<KeyV> = Seq::empty();
    let mut i: usize = 0;
    while i < rows.len()
        invariant
            store.wf(),
            i <= rows@.len(),
            gkeys.len() == out@.len(),
            forall|j: int|
                0 <= j < rows@.len() ==> {
                    let rv = (#[trigger] rows@[j])@;
                    &&& attr_s(rv.attrs, "GSI1PK"@) == Some(gsi1pk@)
                    &&& store@.dom().contains(row_key(rv))
                    &&& store@[row_key(rv)] == rv.attrs
                },
            forall|k: KeyV|
                #[trigger] store@.dom().contains(k) && attr_s(store@[k], "GSI1PK"@) == Some(
                    gsi1pk@,
                ) ==> exists|j: int| 0 <= j < rows@.len() && row_key((#[trigger] rows@[j])@) == k,
            forall|a: int|
                0 <= a < out@.len() ==> store@.dom().contains(#[trigger] gkeys[a]) && attr_s(
                    store@[gkeys[a]],
                    "GSI1PK"@,
                ) == Some(gsi1pk@) && booking_of_attrs(store@[gkeys[a]]) == Some(out@[a]@),
            forall|j: int|
                0 <= j < i && booking_of_attrs((#[trigger] rows@[j])@.attrs) is Some ==> exists|
                    a: int,
                |
                    0 <= a < out@.len() && Some((#[trigger] out@[a])@) == booking_of_attrs(
                        rows@[j]@.attrs,
                    ),
        decreases rows@.len() - i,
    {
        match booking_from_attrs(&rows[i].attrs) {
            Some(b) => {
                let ghost prev = out@;
                out.push(b);
                proof {
                    let gprev = gkeys;
                    gkeys = gkeys.push(row_key(rows@[i as int]@));
                    assert(forall|a: int| 0 <= a < prev.len() ==> out@[a] == prev[a]);
                    assert(forall|a: int| 0 <= a < prev.len() ==> #[trigger] gkeys[a] == gprev[a]);
                    assert((rows@[i as int])@.attrs == attrs_view(rows@[i as int].attrs@));
                    assert(booking_of_attrs((rows@[i as int])@.attrs) == Some(
                        out@[prev.len() as int]@,
                    ));
                    let k = row_key(rows@[i as int]@);
                    assert(gkeys[prev.len() as int] == k);
                    assert(store@.dom().contains(k));
                    assert(store@[k] == (rows@[i as int])@.attrs);
                    assert(attr_s(store@[k], "GSI1PK"@) == Some(gsi1pk@));
                    assert(booking_of_attrs(store@[k]) == Some(out@[prev.len() as int]@));
                }
            },
            None => {
                proof {
                    assert((rows@[i as int])@.attrs == attrs_view(rows@[i as int].attrs@));
                    assert(booking_of_attrs(rows@[i as int]@.attrs) is None);
                }
            },
        }
        i += 1;
    }
    proof {
        assert(gsi1pk@ == tenant_pk_spec(tenant@));
        assert forall|i2: int| 0 <= i2 < out@.len() implies listed_from(
            store@,
            tenant@,
            #[trigger] out@[i2],
        ) by {
            assert(store@.dom().contains(gkeys[i2]) && attr_s(store@[gkeys[i2]], "GSI1PK"@)
                == Some(tenant_pk_spec(tenant@)) && booking_of_attrs(store@[gkeys[i2]]) == Some(
                out@[i2]@,
            ));
        }
        lemma_listing_complete(store@, tenant@, rows@, out@);
        assert(listing_ok(store@, tenant@, out@));
    }
    Ok(out)
}

// ---------------------------------------------------------------------
// Reschedule
// ---------------------------------------------------------------------

/// The payload of a reschedule request.
pub struct UpdateBookingRequest {
    pub start_time: String,
}

impl View for UpdateBookingRequest {
    type V = Seq<char>;

    open spec fn view(&self) -> Seq<char> {
        self.start_time@
    }
}

/// Acknowledgement of a reschedule.
pub struct RescheduleAck {
    pub message: String,
    pub booking_id: String,
    pub new_start_time: String,
    pub updated_at: String,
}

pub struct RescheduleAckV {
    pub message: Seq<char>,
    pub booking_id: Seq<char>,
    pub new_start_time: Seq<char>,
    pub updated_at: Seq<char>,
}

impl View for RescheduleAck {
    type V = RescheduleAckV;

    open spec fn view(&self) -> RescheduleAckV {
        RescheduleAckV {
            message: self.message@,
            booking_id: self.booking_id@,
            new_start_time: self.new_start_time@,
            updated_at: self.updated_at@,
        }
    }
}

/// The attribute updates a reschedule writes.
pub open spec fn reschedule_sets_spec(
    new_start_str: Seq<char>,
    new_end_str: Seq<char>,
    now_str: Seq<char>,
) -> AttrsV {
    seq![
        ("startTime"@, AttrV::S(new_start_str)),
        ("endTime"@, AttrV::S(new_end_str)),
        ("GSI3SK"@, AttrV::S(new_start_str)),
        ("updatedAt"@, AttrV::S(now_str)),
    ]
}

/// The store after a successful reschedule: old slot row gone, new
/// slot row present, booking times updated — the literal application
/// order of the three-item commit.
pub open spec fn reschedule_applied(
    m: Map<KeyV, AttrsV>,
    old_key: KeyV,
    new_key: KeyV,
    bkey: KeyV,
    id: Seq<char>,
    new_start_str: Seq<char>,
    new_end_str: Seq<char>,
    now_str: Seq<char>,
) -> Map<KeyV, AttrsV> {
    let m_mid = m.remove(old_key).insert(new_key, slot_attrs_spec(id, now_str));
    let base = if m_mid.dom().contains(bkey) {
        m_mid[bkey]
    } else {
        Seq::empty()
    };
    m_mid.insert(bkey, merge_attrs(base, reschedule_sets_spec(new_start_str, new_end_str, now_str)))
}

/// The full reschedule transaction: load, tenant check, recompute the
/// duration, then one atomic three-item commit — delete the old slot,
/// insert the new slot conditioned on absence, update the booking.
/// If the new slot is occupied the whole commit aborts and nothing
/// changes.
pub open spec fn reschedule_model(
    m: Map<KeyV, AttrsV>,
    auth: Option<Seq<char>>,
    id: Seq<char>,
    new_start_req: Seq<char>,
    now: Timestamp,
) -> (Result<RescheduleAckV, ApiErrV>, Map<KeyV, AttrsV>) {
    let bkey = booking_key_spec(id);
    if !m.dom().contains(bkey) {
        (Err(ApiErrV::NotFound("Booking no encontrado"@)), m)
    } else {
        let a = m[bkey];
        match attr_s(a, "tenantId"@) {
            None => (Err(ApiErrV::Internal("tenantId no encontrado"@)), m),
            Some(tenant_stored) => match require_tenant_model(auth) {
                Err(e) => (Err(e), m),
                Ok(tok) => if tok != tenant_stored {
                    (
                        Err(ApiErrV::Forbidden("No puedes reprogramar reservas de otro tenant"@)),
                        m,
                    )
                } else {
                    match attr_s(a, "siteId"@) {
                        None => (Err(ApiErrV::Internal("siteId no encontrado"@)), m),
                        Some(site) => match attr_s(a, "professionalId"@) {
                            None => (Err(ApiErrV::Internal("professionalId no encontrado"@)), m),
                            Some(prof) => match attr_s(a, "startTime"@) {
                                None => (Err(ApiErrV::Internal("startTime no encontrado"@)), m),
                                Some(sts) => match rfc3339_parsed(sts) {
                                    None => (Err(ApiErrV::Internal("startTime inválido"@)), m),
                                    Some(old_start) => match rfc3339_parsed(new_start_req) {
                                        None => (
                                            Err(ApiErrV::Validation(
                                                "start_time inválido (usar ISO8601)"@,
                                            )),
                                            m,
                                        ),
                                        Some(new_start) => match attr_s(a, "treatmentId"@) {
                                            None => (
                                                Err(ApiErrV::Internal(
                                                    "treatmentId no encontrado"@,
                                                )),
                                                m,
                                            ),
                                            Some(treatment) => match treatment_duration_model(
                                                m,
                                                tenant_stored,
                                                treatment,
                                            ) {
                                                Err(e) => (Err(e), m),
                                                Ok(dur) => match treatment_buffer_model(
                                                    m,
                                                    tenant_stored,
                                                    treatment,
                                                ) {
                                                    Err(e) => (Err(e), m),
                                                    Ok(buf) => reschedule_commit_model(
                                                        m,
                                                        id,
                                                        tenant_stored,
                                                        site,
                                                        prof,
                                                        old_start,
                                                        new_start,
                                                        (dur + buf) as int,
                                                        now,
                                                    ),
                                                },
                                            },
                                        },
                                    },
                                },
                            },
                        },
                    }
                },
            },
        }
    }
}

/// The commit stage of a reschedule, once everything is loaded.
pub open spec fn reschedule_commit_model(
    m: Map<KeyV, AttrsV>,
    id: Seq<char>,
    tenant: Seq<char>,
    site: Seq<char>,
    prof: Seq<char>,
    old_start: Timestamp,
    new_start: Timestamp,
    mins: int,
    now: Timestamp,
) -> (Result<RescheduleAckV, ApiErrV>, Map<KeyV, AttrsV>) {
    if !idx_in_range(new_start.min_idx() + mins) {
        (Err(ApiErrV::Internal("Hora de fin fuera de rango"@)), m)
    } else {
        let new_end = shift_ts(new_start, mins);
        let old_key = slot_key_spec(tenant, site, prof, old_start);
        let new_key = slot_key_spec(tenant, site, prof, new_start);
        if m.dom().contains(new_key) {
            (Err(ApiErrV::Conflict("Nuevo slot no disponible"@)), m)
        } else {
            let now_str = fmt_rfc3339(now);
            let new_start_str = fmt_rfc3339(new_start);
            (
                Ok(RescheduleAckV {
                    message: "Booking reprogramado exitosamente"@,
                    booking_id: id,
                    new_start_time: new_start_str,
                    updated_at: now_str,
                }),
                reschedule_applied(
                    m,
                    old_key,
                    new_key,
                    booking_key_spec(id),
                    id,
                    new_start_str,
                    fmt_rfc3339(new_end),
                    now_str,
                ),
            )
        }
    }
}

/// Reschedules a booking: one atomic three-item commit that frees the
/// old slot, claims the new slot (conditioned on its absence) and
/// updates the booking's times.  If the new slot is taken, the commit
/// aborts whole: callers observe no partial effect.
#[verifier::rlimit(100)]
pub fn update_booking(
    store: &mut Store,
    auth: Option<&str>,
    booking_id: &String,
    payload: &UpdateBookingRequest,
    now: &Timestamp,
) -> (r: Result<RescheduleAck, ApiError>)
    requires
        old(store).wf(),
        now.wf(),
    ensures
        final(store).wf(),
        final(store)@ == reschedule_model(old(store)@, opt_view(auth), booking_id@, payload@, *now).1,
        res_view(r) == reschedule_model(old(store)@, opt_view(auth), booking_id@, payload@, *now).0,
{
    let bpk = booking_pk(booking_id.as_str());
    let msk = metadata_sk();
    let attrs = match store.get(bpk.as_str(), msk.as_str()) {
        Some(a) => a,
        None => {
            return Err(ApiError::NotFound(lit("Booking no encontrado")));
        },
    };
    let tenant_stored = match get_attr_s(attrs, "tenantId") {
        Some(t) => t,
        None => {
            return Err(ApiError::Internal(lit("tenantId no encontrado")));
        },
    };
    let tok = match require_tenant(auth) {
        Ok(t) => t,
        Err(e) => {
            return Err(e);
        },
    };
    if !crate::text::str_eq(tok.as_str(), tenant_stored.as_str()) {
        return Err(ApiError::Forbidden(lit("No puedes reprogramar reservas de otro tenant")));
    }
    let site = match get_attr_s(attrs, "siteId") {
        Some(s) => s,
        None => {
            return Err(ApiError::Internal(lit("siteId no encontrado")));
        },
    };
    let prof = match get_attr_s(attrs, "professionalId") {
        Some(s) => s,
        None => {
            return Err(ApiError::Internal(lit("professionalId no encontrado")));
        },
    };
    let sts = match get_attr_s(attrs, "startTime") {
        Some(s) => s,
        None => {
            return Err(ApiError::Internal(lit("startTime no encontrado")));
        },
    };
    let old_start = match parse_rfc3339(sts.as_str()) {
        Some(t) => t,
        None => {
            return Err(ApiError::Internal(lit("startTime inválido")));
        },
    };
    let new_start = match parse_rfc3339(payload.start_time.as_str()) {
        Some(t) => t,
        None => {
            return Err(ApiError::Validation(lit("start_time inválido (usar ISO8601)")));
        },
    };
    let treatment = match get_attr_s(attrs, "treatmentId") {
        Some(t) => t,
        None => {
            return Err(ApiError::Internal(lit("treatmentId no encontrado")));
        },
    };
    let dur = match fetch_treatment_duration_minutes(
        store,
        tenant_stored.as_str(),
        treatment.as_str(),
    ) {
        Ok(v) => v,
        Err(e) => {
            return Err(e);
        },
    };
    let buf = match fetch_treatment_buffer_minutes(
        store,
        tenant_stored.as_str(),
        treatment.as_str(),
    ) {
        Ok(v) => v,
        Err(e) => {
            return Err(e);
        },
    };
    let new_end = match add_minutes(&new_start, dur as u64 + buf as u64) {
        Some(t) => t,
        None => {
            return Err(ApiError::Internal(lit("Hora de fin fuera de rango")));
        },
    };
    let now_str = format_rfc3339(now);
    let new_start_str = format_rfc3339(&new_start);
    let new_end_str = format_rfc3339(&new_end);
    let old_spk = slot_pk(tenant_stored.as_str(), site.as_str(), format_date(&old_start).as_str());
    let old_ssk = slot_sk(format_hm(&old_start).as_str(), prof.as_str());
    let new_spk = slot_pk(tenant_stored.as_str(), site.as_str(), format_date(&new_start).as_str());
    let new_ssk = slot_sk(format_hm(&new_start).as_str(), prof.as_str());
    let slot_attrs: Vec<(String, AttrVal)> = vec![
        (lit("bookingId"), AttrVal::S(booking_id.clone())),
        (lit("status"), AttrVal::S(lit("reserved"))),
        (lit("createdAt"), AttrVal::S(now_str.clone())),
    ];
    let sets: Vec<(String, AttrVal)> = vec![
        (lit("startTime"), AttrVal::S(new_start_str.clone())),
        (lit("endTime"), AttrVal::S(new_end_str.clone())),
        (lit("GSI3SK"), AttrVal::S(new_start_str.clone())),
        (lit("updatedAt"), AttrVal::S(now_str.clone())),
    ];
    proof {
        assert(attrs_view(slot_attrs@) =~= slot_attrs_spec(booking_id@, fmt_rfc3339(*now)));
        assert(attrs_view(sets@) =~= reschedule_sets_spec(
            fmt_rfc3339(new_start),
            fmt_rfc3339(new_end),
            fmt_rfc3339(*now),
        ));
    }
    let ops: Vec<TxOp> = vec![
        TxOp::Delete { pk: old_spk, sk: old_ssk },
        TxOp::Put { pk: new_spk, sk: new_ssk, attrs: slot_attrs, cond: TxCond::Absent },
        TxOp::Update { pk: bpk, sk: metadata_sk(), sets, cond: TxCond::Always },
    ];
    let ghost opsv = ops_view(ops@);
    let ghost bkey = booking_key_spec(booking_id@);
    let ghost old_key = slot_key_spec(tenant_stored@, site@, prof@, old_start);
    let ghost new_key = slot_key_spec(tenant_stored@, site@, prof@, new_start);
    let ghost m0 = store@;
    proof {
        assert(opsv.len() == 3);
        assert(op_cond(opsv[0]) == TxCondV::Always);
        assert(op_key(opsv[1]) == new_key);
        assert(op_cond(opsv[1]) == TxCondV::Absent);
        assert(op_cond(opsv[2]) == TxCondV::Always);
    }
    match store.atomic_commit(&ops) {
        CommitResult::Committed => {
            proof {
                assert(cond_holds(m0, op_key(opsv[1]), op_cond(opsv[1])));
                assert(!m0.dom().contains(new_key));
                let m1 = apply_op(m0, opsv[0]);
                assert(m1 == m0.remove(old_key));
                let m2 = apply_op(m1, opsv[1]);
                assert(m2 == m1.insert(new_key, slot_attrs_spec(booking_id@, fmt_rfc3339(*now))));
                let m3 = apply_op(m2, opsv[2]);
                let r1 = opsv.drop_first();
                let r2 = r1.drop_first();
                assert(r1 =~= seq![opsv[1], opsv[2]]);
                assert(r2 =~= seq![opsv[2]]);
                assert(r1[0] == opsv[1]);
                assert(r2[0] == opsv[2]);
                assert(r2.drop_first().len() == 0);
                assert(apply_ops(m0, opsv) == apply_ops(m1, r1));
                assert(apply_ops(m1, r1) == apply_ops(m2, r2));
                assert(apply_ops(m2, r2) == apply_ops(m3, r2.drop_first()));
                assert(apply_ops(m3, r2.drop_first()) == m3);
                assert(m3 == reschedule_applied(
                    m0,
                    old_key,
                    new_key,
                    bkey,
                    booking_id@,
                    fmt_rfc3339(new_start),
                    fmt_rfc3339(new_end),
                    fmt_rfc3339(*now),
                ));
            }
            Ok(RescheduleAck {
                message: lit("Booking reprogramado exitosamente"),
                booking_id: booking_id.clone(),
                new_start_time: new_start_str,
                updated_at: now_str,
            })
        },
        CommitResult::Aborted(i) => {
            proof {
                if i != 1 {
                    assert(cond_holds(m0, op_key(opsv[i as int]), op_cond(opsv[i as int])));
                }
                assert(i == 1);
                assert(m0.dom().contains(new_key));
            }
            Err(ApiError::Conflict(lit("Nuevo slot no disponible")))
        },
    }
}

} // verus!
