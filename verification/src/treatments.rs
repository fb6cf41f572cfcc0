//! Treatment records: the read the booking engine needs (duration and
//! buffer) plus the boundary create/list operations.

use vstd::prelude::*;
use crate::errors::{ApiError, ApiErrV};
use crate::keys::{tenant_pk, tenant_pk_spec, treatment_sk, treatment_sk_spec};
use crate::store::{
    attr_n, attr_s, attrs_view, get_attr_n, get_attr_s, row_key, AttrV, AttrVal, AttrsV, KeyV,
    Store,
};
use crate::text::{dec_of, dec_u32_of, lit, parse_u32_dec, u32_to_dec};
use crate::time::{fmt_rfc3339, format_rfc3339, Timestamp};

verus! {

pub struct CreateTreatmentRequest {
    pub tenant_id: String,
    pub name: String,
    pub duration_minutes: i32,
    pub buffer_minutes: Option<i32>,
}

pub struct TreatReqV {
    pub tenant_id: Seq<char>,
    pub name: Seq<char>,
    pub duration_minutes: int,
    pub buffer_minutes: Option<int>,
}

impl View for CreateTreatmentRequest {
    type V = TreatReqV;

    open spec fn view(&self) -> TreatReqV {
        TreatReqV {
            tenant_id: self.tenant_id@,
            name: self.name@,
            duration_minutes: self.duration_minutes as int,
            buffer_minutes: match self.buffer_minutes {
                Some(b) => Some(b as int),
                None => None,
            },
        }
    }
}

/// A treatment as the engine reads and returns it.  The optional
/// price attribute is outside the engine's rules and is carried only
/// at the boundary.
pub struct Treatment {
    pub id: String,
    pub tenant_id: String,
    pub name: String,
    pub duration_minutes: u32,
    pub buffer_minutes: u32,
    pub created_at: String,
}

pub struct TreatmentV {
    pub id: Seq<char>,
    pub tenant_id: Seq<char>,
    pub name: Seq<char>,
    pub duration_minutes: int,
    pub buffer_minutes: int,
    pub created_at: Seq<char>,
}

impl View for Treatment {
    type V = TreatmentV;

    open spec fn view(&self) -> TreatmentV {
        TreatmentV {
            id: self.id@,
            tenant_id: self.tenant_id@,
            name: self.name@,
            duration_minutes: self.duration_minutes as int,
            buffer_minutes: self.buffer_minutes as int,
            created_at: self.created_at@,
        }
    }
}

/// The create rules: identifier and name lengths, duration between 5
/// and 480 minutes, buffer not negative.
pub open spec fn treatment_req_valid(q: TreatReqV) -> bool {
    &&& 1 <= q.tenant_id.len() <= 50
    &&& 3 <= q.name.len() <= 100
    &&& 5 <= q.duration_minutes <= 480
    &&& match q.buffer_minutes {
        Some(b) => b >= 0,
        None => true,
    }
}

pub fn validate_treatment_request(req: &CreateTreatmentRequest) -> (r: bool)
    ensures
        r == treatment_req_valid(req@),
{
    let tn = req.tenant_id.as_str().unicode_len();
    let nn = req.name.as_str().unicode_len();
    let buf_ok = match req.buffer_minutes {
        Some(b) => b >= 0,
        None => true,
    };
    1 <= tn && tn <= 50 && 3 <= nn && nn <= 100 && 5 <= req.duration_minutes
        && req.duration_minutes <= 480 && buf_ok
}

pub open spec fn treatment_buffer_of(q: TreatReqV) -> int {
    match q.buffer_minutes {
        Some(b) => b,
        None => 0,
    }
}

/// The attributes of a stored treatment record.
pub open spec fn treatment_attrs_spec(q: TreatReqV, id: Seq<char>, now_str: Seq<char>) -> AttrsV {
    seq![
        ("GSI1PK"@, AttrV::S(tenant_pk_spec(q.tenant_id))),
        ("GSI1SK"@, AttrV::S(treatment_sk_spec(id))),
        ("id"@, AttrV::S(id)),
        ("tenantId"@, AttrV::S(q.tenant_id)),
        ("name"@, AttrV::S(q.name)),
        ("durationMinutes"@, AttrV::N(dec_of(q.duration_minutes))),
        ("bufferMinutes"@, AttrV::N(dec_of(treatment_buffer_of(q)))),
        ("createdAt"@, AttrV::S(now_str)),
    ]
}

/// The create transaction: validate, then one unconditional put.
pub open spec fn create_treatment_model(
    m: Map<KeyV, AttrsV>,
    q: TreatReqV,
    id: Seq<char>,
    now: Timestamp,
) -> (Result<TreatmentV, ApiErrV>, Map<KeyV, AttrsV>) {
    if !treatment_req_valid(q) {
        (Err(ApiErrV::Validation("Validación fallida"@)), m)
    } else {
        (
            Ok(TreatmentV {
                id: id,
                tenant_id: q.tenant_id,
                name: q.name,
                duration_minutes: q.duration_minutes,
                buffer_minutes: treatment_buffer_of(q),
                created_at: fmt_rfc3339(now),
            }),
            m.insert(
                (tenant_pk_spec(q.tenant_id), treatment_sk_spec(id)),
                treatment_attrs_spec(q, id, fmt_rfc3339(now)),
            ),
        )
    }
}

/// Stores a treatment record.
pub fn create_treatment(
    store: &mut Store,
    req: &CreateTreatmentRequest,
    treatment_id: &String,
    now: &Timestamp,
) -> (r: Result<Treatment, ApiError>)
    requires
        old(store).wf(),
        now.wf(),
    ensures
        final(store).wf(),
        final(store)@ == create_treatment_model(old(store)@, req@, treatment_id@, *now).1,
        match r {
            Ok(t) => create_treatment_model(old(store)@, req@, treatment_id@, *now).0 == Ok::<
                TreatmentV,
                ApiErrV,
            >(t@),
            Err(e) => create_treatment_model(old(store)@, req@, treatment_id@, *now).0 == Err::<
                TreatmentV,
                ApiErrV,
            >(e@),
        },
{
    if !validate_treatment_request(req) {
        return Err(ApiError::Validation(lit("Validación fallida")));
    }
    let now_str = format_rfc3339(now);
    let buffer: u32 = match req.buffer_minutes {
        Some(b) => b as u32,
        None => 0,
    };
    let duration: u32 = req.duration_minutes as u32;
    let attrs: Vec<(String, AttrVal)> = vec![
        (lit("GSI1PK"), AttrVal::S(tenant_pk(req.tenant_id.as_str()))),
        (lit("GSI1SK"), AttrVal::S(treatment_sk(treatment_id.as_str()))),
        (lit("id"), AttrVal::S(treatment_id.clone())),
        (lit("tenantId"), AttrVal::S(req.tenant_id.clone())),
        (lit("name"), AttrVal::S(req.name.clone())),
        (lit("durationMinutes"), AttrVal::N(u32_to_dec(duration))),
        (lit("bufferMinutes"), AttrVal::N(u32_to_dec(buffer))),
        (lit("createdAt"), AttrVal::S(now_str.clone())),
    ];
    proof {
        assert(attrs_view(attrs@) =~= treatment_attrs_spec(req@, treatment_id@, fmt_rfc3339(
            *now,
        )));
    }
    store.put(tenant_pk(req.tenant_id.as_str()), treatment_sk(treatment_id.as_str()), attrs);
    Ok(Treatment {
        id: treatment_id.clone(),
        tenant_id: req.tenant_id.clone(),
        name: req.name.clone(),
        duration_minutes: duration,
        buffer_minutes: buffer,
        created_at: now_str,
    })
}

/// The treatment an item denotes; a missing or unreadable field
/// falls back to the listing defaults.
pub open spec fn treatment_of_attrs(a: AttrsV) -> TreatmentV {
    TreatmentV {
        id: match attr_s(a, "id"@) {
            Some(s) => s,
            None => Seq::empty(),
        },
        tenant_id: match attr_s(a, "tenantId"@) {
            Some(s) => s,
            None => Seq::empty(),
        },
        name: match attr_s(a, "name"@) {
            Some(s) => s,
            None => Seq::empty(),
        },
        duration_minutes: match attr_n(a, "durationMinutes"@) {
            Some(s) => match dec_u32_of(s) {
                Some(v) => v as int,
                None => 30,
            },
            None => 30,
        },
        buffer_minutes: match attr_n(a, "bufferMinutes"@) {
            Some(s) => match dec_u32_of(s) {
                Some(v) => v as int,
                None => 0,
            },
            None => 0,
        },
        created_at: match attr_s(a, "createdAt"@) {
            Some(s) => s,
            None => Seq::empty(),
        },
    }
}

/// Reads a treatment out of an item.
pub fn treatment_from_attrs(attrs: &Vec<(String, AttrVal)>) -> (r: Treatment)
    ensures
        r@ == treatment_of_attrs(attrs_view(attrs@)),
{
    let id = match get_attr_s(attrs, "id") {
        Some(s) => s,
        None => String::new(),
    };
    let tenant_id = match get_attr_s(attrs, "tenantId") {
        Some(s) => s,
        None => String::new(),
    };
    let name = match get_attr_s(attrs, "name") {
        Some(s) => s,
        None => String::new(),
    };
    let duration_minutes: u32 = match get_attr_n(attrs, "durationMinutes") {
        Some(s) => match parse_u32_dec(s.as_str()) {
            Some(v) => v,
            None => 30,
        },
        None => 30,
    };
    let buffer_minutes: u32 = match get_attr_n(attrs, "bufferMinutes") {
        Some(s) => match parse_u32_dec(s.as_str()) {
            Some(v) => v,
            None => 0,
        },
        None => 0,
    };
    let created_at = match get_attr_s(attrs, "createdAt") {
        Some(s) => s,
        None => String::new(),
    };
    Treatment { id, tenant_id, name, duration_minutes, buffer_minutes, created_at }
}

/// Whether some stored treatment item of the tenant denotes `x`.
pub open spec fn treatment_listed_from(m: Map<KeyV, AttrsV>, tenant: Seq<char>, x: Treatment) -> bool {
    exists|k: KeyV|
        #[trigger] m.dom().contains(k) && k.0 == tenant_pk_spec(tenant)
            && "TREATMENT#"@.is_prefix_of(k.1) && treatment_of_attrs(m[k]) == x@
}

/// Whether the treatment denoted by `attrs` appears in `v`.
pub open spec fn treatment_listed_in(v: Seq<Treatment>, attrs: AttrsV) -> bool {
    exists|i: int| 0 <= i < v.len() && (#[trigger] v[i])@ == treatment_of_attrs(attrs)
}

/// What a correct treatment listing holds.
pub open spec fn treatment_listing_ok(
    m: Map<KeyV, AttrsV>,
    tenant: Seq<char>,
    v: Seq<Treatment>,
) -> bool {
    &&& forall|i: int| 0 <= i < v.len() ==> treatment_listed_from(m, tenant, #[trigger] v[i])
    &&& forall|k: KeyV|
        #[trigger] m.dom().contains(k) && k.0 == tenant_pk_spec(tenant)
            && "TREATMENT#"@.is_prefix_of(k.1) ==> treatment_listed_in(v, m[k])
}

/// Lists a tenant's treatments: one range query under the tenant's
/// partition, every item once.
#[verifier::rlimit(100)]
pub fn list_treatments(store: &Store, tenant_id: &str) -> (r: Vec<Treatment>)
    requires
        store.wf(),
    ensures
        treatment_listing_ok(store@, tenant_id@, r@),
{
    let pk = tenant_pk(tenant_id);
    let prefix = lit("TREATMENT#");
    let rows = store.query_prefix(pk.as_str(), prefix.as_str());
    let mut out: Vec<Treatment> = Vec::new();
    let ghost mut gkeys: Seq<KeyV> = Seq::empty();
    let mut i: usize = 0;
    while i < rows.len()
        invariant
            store.wf(),
            i <= rows@.len(),
            out@.len() == i,
            gkeys.len() == i,
            pk@ == tenant_pk_spec(tenant_id@),
            prefix@ == "TREATMENT#"@,
            forall|j: int|
                0 <= j < rows@.len() ==> {
                    let rv = (#[trigger] rows@[j])@;
                    &&& rv.pk == pk@
                    &&& prefix@.is_prefix_of(rv.sk)
                    &&& store@.dom().contains(row_key(rv))
                    &&& store@[row_key(rv)] == rv.attrs
                },
            forall|k: KeyV|
                #[trigger] store@.dom().contains(k) && k.0 == pk@ && prefix@.is_prefix_of(k.1)
                    ==> exists|j: int|
                    0 <= j < rows@.len() && row_key((#[trigger] rows@[j])@) == k,
            forall|a: int|
                0 <= a < i ==> store@.dom().contains(#[trigger] gkeys[a]) && gkeys[a].0 == pk@
                    && "TREATMENT#"@.is_prefix_of(gkeys[a].1) && treatment_of_attrs(
                    store@[gkeys[a]],
                ) == out@[a]@,
            forall|j: int|
                0 <= j < i ==> (#[trigger] out@[j])@ == treatment_of_attrs(
                    (#[trigger] rows@[j])@.attrs,
                ),
        decreases rows@.len() - i,
    {
        let t = treatment_from_attrs(&rows[i].attrs);
        let ghost prev = out@;
        out.push(t);
        proof {
            gkeys = gkeys.push(row_key(rows@[i as int]@));
            assert(forall|a: int| 0 <= a < prev.len() ==> out@[a] == prev[a]);
            assert((rows@[i as int])@.attrs == attrs_view(rows@[i as int].attrs@));
            assert(out@[i as int]@ == treatment_of_attrs(rows@[i as int]@.attrs));
        }
        i += 1;
    }
    proof {
        assert forall|i2: int| 0 <= i2 < out@.len() implies treatment_listed_from(
            store@,
            tenant_id@,
            #[trigger] out@[i2],
        ) by {
            assert(store@.dom().contains(gkeys[i2]) && gkeys[i2].0 == tenant_pk_spec(tenant_id@)
                && "TREATMENT#"@.is_prefix_of(gkeys[i2].1) && treatment_of_attrs(
                store@[gkeys[i2]],
            ) == out@[i2]@);
        }
        assert forall|k: KeyV|
            #[trigger] store@.dom().contains(k) && k.0 == tenant_pk_spec(tenant_id@)
                && "TREATMENT#"@.is_prefix_of(k.1) implies treatment_listed_in(out@, store@[k]) by {
            let j = choose|j: int| 0 <= j < rows@.len() && row_key((#[trigger] rows@[j])@) == k;
            assert(out@[j]@ == treatment_of_attrs(store@[k]));
        }
    }
    out
}

} // verus!
