//! The engine's guarantees, proved over the operation models.
//!
//! Each law is stated against the spec-level model functions that the
//! executable operations are proved equal to, so what is shown here
//! holds of every run of the engine against the store model.

use vstd::prelude::*;
use crate::auth::require_tenant_model;
use crate::availability::{
    cand_free, cand_prefix, cand_slot, free_slots, grid_len, occ_contains, occ_ok,
};
use crate::bookings::{
    booking_key_spec, cancel_model, cancel_sets_spec, create_model, create_req_valid,
    reschedule_commit_model, reschedule_sets_spec, slot_attrs_spec, slot_key_spec,
    treatment_buffer_model, treatment_duration_model, BookingV, CancelAckV, CreateReqV,
};
use crate::errors::ApiErrV;
use crate::keys::{lemma_sk_shapes, slot_pk_spec, tenant_pk_spec, treatment_sk_spec};
use crate::store::{
    attr_s, lemma_merge_attrs_get_absent, lemma_merge_attrs_get_set, merge_attrs, AttrsV, KeyV,
};
use crate::time::{fmt_hm, fmt_rfc3339, idx_in_range, rfc3339_parsed, shift_ts, Timestamp};

verus! {

/// The slot reservation key a create request claims, once its tenant
/// is resolved and its start time parsed.
pub open spec fn create_key(auth: Option<Seq<char>>, q: CreateReqV) -> KeyV {
    slot_key_spec(
        require_tenant_model(auth)->Ok_0,
        q.site_id,
        q.professional_id,
        rfc3339_parsed(q.start_time)->Some_0,
    )
}

/// Pairwise distinctness of the attribute names the commits write,
/// read off the literals.
proof fn lemma_attr_name_lits()
    ensures
        "status"@ != "cancelledAt"@,
        "tenantId"@ != "status"@,
        "tenantId"@ != "cancelledAt"@,
        "siteId"@ != "status"@,
        "siteId"@ != "cancelledAt"@,
        "professionalId"@ != "status"@,
        "professionalId"@ != "cancelledAt"@,
        "startTime"@ != "status"@,
        "startTime"@ != "cancelledAt"@,
        "startTime"@ != "endTime"@,
        "startTime"@ != "GSI3SK"@,
        "startTime"@ != "updatedAt"@,
        "endTime"@ != "GSI3SK"@,
        "endTime"@ != "updatedAt"@,
        "GSI3SK"@ != "updatedAt"@,
{
    reveal_strlit("status");
    reveal_strlit("cancelledAt");
    reveal_strlit("tenantId");
    reveal_strlit("siteId");
    reveal_strlit("professionalId");
    reveal_strlit("startTime");
    reveal_strlit("endTime");
    reveal_strlit("GSI3SK");
    reveal_strlit("updatedAt");
    assert("status"@.len() == 6);
    assert("cancelledAt"@.len() == 11);
    assert("tenantId"@.len() == 8);
    assert("siteId"@.len() == 6);
    assert("professionalId"@.len() == 14);
    assert("startTime"@.len() == 9);
    assert("endTime"@.len() == 7);
    assert("GSI3SK"@.len() == 6);
    assert("updatedAt"@.len() == 9);
    assert("siteId"@[1] == 'i' && "status"@[1] == 't');
    assert("GSI3SK"@[0] == 'G' && "status"@[0] == 's' && "siteId"@[0] == 's');
    assert("startTime"@[0] == 's' && "updatedAt"@[0] == 'u');
}

/// A successful create found its slot key free and claimed it: the
/// store afterwards is exactly the old store plus the slot reservation
/// and the booking metadata, and every key that existed before still
/// exists.
pub proof fn lemma_create_claims_slot(
    m: Map<KeyV, AttrsV>,
    auth: Option<Seq<char>>,
    q: CreateReqV,
    id: Seq<char>,
    now: Timestamp,
)
    requires
        create_model(m, auth, q, id, now).0 is Ok,
    ensures
        ({
            let k = create_key(auth, q);
            let m1 = create_model(m, auth, q, id, now).1;
            &&& !m.dom().contains(k)
            &&& m1.dom().contains(k)
            &&& m1[k] == slot_attrs_spec(id, fmt_rfc3339(now))
            &&& forall|k2: KeyV| m.dom().contains(k2) ==> #[trigger] m1.dom().contains(k2)
        }),
{
    let t = require_tenant_model(auth)->Ok_0;
    let start = rfc3339_parsed(q.start_time)->Some_0;
    let k = create_key(auth, q);
    lemma_sk_shapes(fmt_hm(start), q.professional_id, q.treatment_id);
    reveal_strlit("METADATA");
    assert(k.1 != "METADATA"@);
    assert(k != booking_key_spec(id));
}

/// A create never removes a treatment record: the duration lookup is
/// unchanged by it.
pub proof fn lemma_create_preserves_treatment(
    m: Map<KeyV, AttrsV>,
    auth: Option<Seq<char>>,
    q: CreateReqV,
    id: Seq<char>,
    now: Timestamp,
    tt: Seq<char>,
    tr: Seq<char>,
)
    requires
        create_model(m, auth, q, id, now).0 is Ok,
    ensures
        treatment_duration_model(create_model(m, auth, q, id, now).1, tt, tr)
            == treatment_duration_model(m, tt, tr),
        treatment_buffer_model(create_model(m, auth, q, id, now).1, tt, tr)
            == treatment_buffer_model(m, tt, tr),
{
    let start = rfc3339_parsed(q.start_time)->Some_0;
    let ktr = (tenant_pk_spec(tt), treatment_sk_spec(tr));
    lemma_sk_shapes(fmt_hm(start), q.professional_id, tr);
    reveal_strlit("METADATA");
    assert(ktr.1 != create_key(auth, q).1);
    assert(ktr.1 != "METADATA"@);
    assert(ktr != create_key(auth, q));
    assert(ktr != booking_key_spec(id));
}

/// Uniqueness: for any sequence of two create calls, one after the
/// other, both cannot succeed on the same slot key — no two succeeding
/// bookings ever share a (tenant, site, professional, start time)
/// slot.
pub proof fn lemma_create_uniqueness(
    m: Map<KeyV, AttrsV>,
    auth1: Option<Seq<char>>,
    q1: CreateReqV,
    id1: Seq<char>,
    now1: Timestamp,
    auth2: Option<Seq<char>>,
    q2: CreateReqV,
    id2: Seq<char>,
    now2: Timestamp,
)
    requires
        create_model(m, auth1, q1, id1, now1).0 is Ok,
        create_model(create_model(m, auth1, q1, id1, now1).1, auth2, q2, id2, now2).0 is Ok,
    ensures
        create_key(auth1, q1) != create_key(auth2, q2),
{
    let m1 = create_model(m, auth1, q1, id1, now1).1;
    lemma_create_claims_slot(m, auth1, q1, id1, now1);
    lemma_create_claims_slot(m1, auth2, q2, id2, now2);
}

/// Race resolution: two creates for the same slot key that would each
/// succeed alone — after the store serializes them, the first returns
/// its booking, the second observes `Conflict`, nothing of the second
/// is written, and the slot row carries the first booking's id.
pub proof fn lemma_create_race(
    m: Map<KeyV, AttrsV>,
    auth1: Option<Seq<char>>,
    q1: CreateReqV,
    id1: Seq<char>,
    now1: Timestamp,
    auth2: Option<Seq<char>>,
    q2: CreateReqV,
    id2: Seq<char>,
    now2: Timestamp,
)
    requires
        create_model(m, auth1, q1, id1, now1).0 is Ok,
        create_model(m, auth2, q2, id2, now2).0 is Ok,
        create_key(auth1, q1) == create_key(auth2, q2),
    ensures
        ({
            let m1 = create_model(m, auth1, q1, id1, now1).1;
            let second = create_model(m1, auth2, q2, id2, now2);
            &&& second.0 == Err::<BookingV, ApiErrV>(ApiErrV::Conflict(
                "Slot no disponible (reservado por otro usuario)"@,
            ))
            &&& second.1 == m1
            &&& m1.dom().contains(create_key(auth1, q1))
            &&& m1[create_key(auth1, q1)] == slot_attrs_spec(id1, fmt_rfc3339(now1))
        }),
{
    let m1 = create_model(m, auth1, q1, id1, now1).1;
    lemma_create_claims_slot(m, auth1, q1, id1, now1);
    let t2 = require_tenant_model(auth2)->Ok_0;
    lemma_create_preserves_treatment(m, auth1, q1, id1, now1, t2, q2.treatment_id);
}

/// Cancel idempotency guard: after one cancel succeeds, a second
/// cancel of the same booking by the same tenant — and any later one —
/// observes `Conflict` and changes nothing; the first cancel left the
/// status `cancelled`.
pub proof fn lemma_cancel_idempotency(
    m: Map<KeyV, AttrsV>,
    auth1: Option<Seq<char>>,
    id: Seq<char>,
    now1: Timestamp,
    auth2: Option<Seq<char>>,
    now2: Timestamp,
)
    requires
        cancel_model(m, auth1, id, now1).0 is Ok,
        require_tenant_model(auth2) == require_tenant_model(auth1),
    ensures
        ({
            let m1 = cancel_model(m, auth1, id, now1).1;
            let second = cancel_model(m1, auth2, id, now2);
            &&& attr_s(m1[booking_key_spec(id)], "status"@) == Some("cancelled"@)
            &&& second.0 == Err::<CancelAckV, ApiErrV>(ApiErrV::Conflict(
                "Booking ya está cancelado"@,
            ))
            &&& second.1 == m1
        }),
{
    let bkey = booking_key_spec(id);
    let a = m[bkey];
    let tenant_stored = attr_s(a, "tenantId"@)->Some_0;
    let site = attr_s(a, "siteId"@)->Some_0;
    let prof = attr_s(a, "professionalId"@)->Some_0;
    let sts = attr_s(a, "startTime"@)->Some_0;
    let start = rfc3339_parsed(sts)->Some_0;
    let skey = slot_key_spec(tenant_stored, site, prof, start);
    let now_str = fmt_rfc3339(now1);
    let sets = cancel_sets_spec(now_str);
    let merged = merge_attrs(a, sets);
    let m1 = cancel_model(m, auth1, id, now1).1;
    lemma_attr_name_lits();
    lemma_sk_shapes(fmt_hm(start), prof, id);
    reveal_strlit("METADATA");
    assert(bkey.1 != skey.1);
    assert(bkey != skey);
    assert(m1 == m.insert(bkey, merged).remove(skey));
    assert(m1.dom().contains(bkey));
    assert(m1[bkey] == merged);
    // the merge wrote the status and left the identifying fields alone
    assert(sets[0] == ("status"@, crate::store::AttrV::S("cancelled"@)));
    assert(sets[1].0 == "cancelledAt"@);
    lemma_merge_attrs_get_set(a, sets, 0, "status"@);
    assert(forall|j: int| 0 <= j < sets.len() ==> (#[trigger] sets[j]).0 != "tenantId"@);
    lemma_merge_attrs_get_absent(a, sets, "tenantId"@);
    assert(forall|j: int| 0 <= j < sets.len() ==> (#[trigger] sets[j]).0 != "siteId"@);
    lemma_merge_attrs_get_absent(a, sets, "siteId"@);
    assert(forall|j: int| 0 <= j < sets.len() ==> (#[trigger] sets[j]).0 != "professionalId"@);
    lemma_merge_attrs_get_absent(a, sets, "professionalId"@);
    assert(forall|j: int| 0 <= j < sets.len() ==> (#[trigger] sets[j]).0 != "startTime"@);
    lemma_merge_attrs_get_absent(a, sets, "startTime"@);
    assert(attr_s(merged, "status"@) == Some("cancelled"@));
    assert(attr_s(merged, "tenantId"@) == Some(tenant_stored));
    assert(attr_s(merged, "siteId"@) == Some(site));
    assert(attr_s(merged, "professionalId"@) == Some(prof));
    assert(attr_s(merged, "startTime"@) == Some(sts));
    assert(!crate::bookings::status_ne(merged, "cancelled"@));
}

/// Reschedule atomicity: with the new slot occupied, the commit aborts
/// whole and the store — old slot row included — is exactly as before;
/// with it free, the old slot row is gone, the new one is present, and
/// the booking's times are updated, all in the one commit.
pub proof fn lemma_reschedule_atomicity(
    m: Map<KeyV, AttrsV>,
    id: Seq<char>,
    tenant: Seq<char>,
    site: Seq<char>,
    prof: Seq<char>,
    old_start: Timestamp,
    new_start: Timestamp,
    mins: int,
    now: Timestamp,
)
    requires
        idx_in_range(new_start.min_idx() + mins),
    ensures
        ({
            let r = reschedule_commit_model(m, id, tenant, site, prof, old_start, new_start,
                mins, now);
            let old_key = slot_key_spec(tenant, site, prof, old_start);
            let new_key = slot_key_spec(tenant, site, prof, new_start);
            let bkey = booking_key_spec(id);
            &&& m.dom().contains(new_key) ==> r.0 == Err::<
                crate::bookings::RescheduleAckV,
                ApiErrV,
            >(ApiErrV::Conflict("Nuevo slot no disponible"@)) && r.1 == m
            &&& !m.dom().contains(new_key) ==> {
                &&& r.0 is Ok
                &&& r.1.dom().contains(new_key)
                &&& r.1[new_key] == slot_attrs_spec(id, fmt_rfc3339(now))
                &&& old_key != new_key ==> !r.1.dom().contains(old_key)
                &&& attr_s(r.1[bkey], "startTime"@) == Some(fmt_rfc3339(new_start))
                &&& attr_s(r.1[bkey], "endTime"@) == Some(fmt_rfc3339(shift_ts(new_start, mins)))
                &&& attr_s(r.1[bkey], "updatedAt"@) == Some(fmt_rfc3339(now))
            }
        }),
{
    let old_key = slot_key_spec(tenant, site, prof, old_start);
    let new_key = slot_key_spec(tenant, site, prof, new_start);
    let bkey = booking_key_spec(id);
    lemma_attr_name_lits();
    lemma_sk_shapes(fmt_hm(old_start), prof, id);
    lemma_sk_shapes(fmt_hm(new_start), prof, id);
    reveal_strlit("METADATA");
    assert(bkey.1 != old_key.1);
    assert(bkey.1 != new_key.1);
    assert(bkey != old_key);
    assert(bkey != new_key);
    if !m.dom().contains(new_key) {
        let now_str = fmt_rfc3339(now);
        let new_start_str = fmt_rfc3339(new_start);
        let new_end_str = fmt_rfc3339(shift_ts(new_start, mins));
        let sets = reschedule_sets_spec(new_start_str, new_end_str, now_str);
        let m_mid = m.remove(old_key).insert(new_key, slot_attrs_spec(id, now_str));
        let base = if m_mid.dom().contains(bkey) {
            m_mid[bkey]
        } else {
            Seq::empty()
        };
        assert(sets[0] == ("startTime"@, crate::store::AttrV::S(new_start_str)));
        assert(sets[1] == ("endTime"@, crate::store::AttrV::S(new_end_str)));
        assert(sets[3] == ("updatedAt"@, crate::store::AttrV::S(now_str)));
        lemma_merge_attrs_get_set(base, sets, 0, "startTime"@);
        lemma_merge_attrs_get_set(base, sets, 1, "endTime"@);
        lemma_merge_attrs_get_set(base, sets, 3, "updatedAt"@);
    }
}

/// Every slot the availability calculator returns sits on the
/// candidate grid and matches no stored reservation of the same date
/// and site (with the professional filter, when one was given).
pub proof fn lemma_free_slots_from_grid(
    date: Seq<char>,
    y: int,
    mo: int,
    d: int,
    prof: Option<Seq<char>>,
    occ: Seq<Seq<char>>,
    upto: int,
    i: int,
)
    requires
        0 <= i < free_slots(date, y, mo, d, prof, occ, upto).len(),
    ensures
        exists|c: int|
            0 <= c < upto && cand_free(c, prof, occ) && free_slots(date, y, mo, d, prof, occ,
                upto)[i] == cand_slot(date, y, mo, d, c, prof),
    decreases upto,
{
    if upto <= 0 {
    } else {
        let rest = free_slots(date, y, mo, d, prof, occ, upto - 1);
        if cand_free(upto - 1, prof, occ) && i == rest.len() {
            assert(cand_free(upto - 1, prof, occ) && free_slots(date, y, mo, d, prof, occ,
                upto)[i] == cand_slot(date, y, mo, d, upto - 1, prof));
        } else {
            lemma_free_slots_from_grid(date, y, mo, d, prof, occ, upto - 1, i);
        }
    }
}

/// Availability exclusion: no returned candidate's token prefix
/// matches the token of any slot reservation stored for that date and
/// site.
pub proof fn lemma_availability_exclusion(
    m: Map<KeyV, AttrsV>,
    t: Seq<char>,
    site: Seq<char>,
    date: Seq<char>,
    y: int,
    mo: int,
    d: int,
    prof: Option<Seq<char>>,
    occ: Seq<Seq<char>>,
    i: int,
    k: KeyV,
)
    requires
        occ_ok(m, t, site, date, occ),
        0 <= i < free_slots(date, y, mo, d, prof, occ, grid_len()).len(),
        m.dom().contains(k),
        k.0 == slot_pk_spec(t, site, date),
        "SLOT#"@.is_prefix_of(k.1),
    ensures
        exists|c: int|
            0 <= c < grid_len() && free_slots(date, y, mo, d, prof, occ, grid_len())[i]
                == cand_slot(date, y, mo, d, c, prof) && !cand_prefix(c, prof).is_prefix_of(
                k.1.skip(5),
            ),
{
    lemma_free_slots_from_grid(date, y, mo, d, prof, occ, grid_len(), i);
    let c = choose|c: int|
        0 <= c < grid_len() && cand_free(c, prof, occ) && free_slots(date, y, mo, d, prof, occ,
            grid_len())[i] == cand_slot(date, y, mo, d, c, prof);
    assert(occ_contains(occ, k.1.skip(5)));
    let j = choose|j: int| 0 <= j < occ.len() && occ[j] == k.1.skip(5);
    assert(!cand_prefix(c, prof).is_prefix_of(occ[j]));
}

/// Tenant isolation: a create whose payload tenant differs from the
/// token's tenant is rejected with `Forbidden` before any store
/// access — the store is untouched.
pub proof fn lemma_tenant_isolation(
    m: Map<KeyV, AttrsV>,
    auth: Option<Seq<char>>,
    q: CreateReqV,
    id: Seq<char>,
    now: Timestamp,
)
    requires
        create_req_valid(q),
        require_tenant_model(auth) matches Ok(t) && q.tenant_id != t,
    ensures
        create_model(m, auth, q, id, now).0 == Err::<BookingV, ApiErrV>(ApiErrV::Forbidden(
            "tenant_id del payload no coincide con el token"@,
        )),
        create_model(m, auth, q, id, now).1 == m,
{
}

} // verus!
