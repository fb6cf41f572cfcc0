//! Professional records: the read-only input to slot key derivation,
//! with the boundary create/list operations.

use vstd::prelude::*;
use crate::errors::{ApiError, ApiErrV};
use crate::keys::{professional_sk, professional_sk_spec, tenant_pk, tenant_pk_spec};
use crate::store::{
    attr_of, attr_s, attrs_view, clone_string_vec, get_attr, get_attr_s, row_key, AttrV, AttrVal,
    AttrsV, KeyV, Store,
};
use crate::tenants::{email_ok, is_valid_email};
use crate::text::lit;
use crate::time::{fmt_rfc3339, format_rfc3339, Timestamp};

verus! {

pub struct CreateProfessionalRequest {
    pub tenant_id: String,
    pub name: String,
    pub email: String,
    pub specialties: Vec<String>,
    pub schedule: Option<String>,
}

pub struct ProfReqV {
    pub tenant_id: Seq<char>,
    pub name: Seq<char>,
    pub email: Seq<char>,
    pub specialties: Seq<Seq<char>>,
    pub schedule: Option<Seq<char>>,
}

impl View for CreateProfessionalRequest {
    type V = ProfReqV;

    open spec fn view(&self) -> ProfReqV {
        ProfReqV {
            tenant_id: self.tenant_id@,
            name: self.name@,
            email: self.email@,
            specialties: self.specialties@.map_values(|s: String| s@),
            schedule: match self.schedule {
                Some(ref s) => Some(s@),
                None => None,
            },
        }
    }
}

pub struct Professional {
    pub id: String,
    pub tenant_id: String,
    pub name: String,
    pub email: String,
    pub specialties: Vec<String>,
    pub schedule: String,
    pub status: String,
    pub created_at: String,
}

pub struct ProfessionalV {
    pub id: Seq<char>,
    pub tenant_id: Seq<char>,
    pub name: Seq<char>,
    pub email: Seq<char>,
    pub specialties: Seq<Seq<char>>,
    pub schedule: Seq<char>,
    pub status: Seq<char>,
    pub created_at: Seq<char>,
}

impl View for Professional {
    type V = ProfessionalV;

    open spec fn view(&self) -> ProfessionalV {
        ProfessionalV {
            id: self.id@,
            tenant_id: self.tenant_id@,
            name: self.name@,
            email: self.email@,
            specialties: self.specialties@.map_values(|s: String| s@),
            schedule: self.schedule@,
            status: self.status@,
            created_at: self.created_at@,
        }
    }
}

/// The create rules: identifier and name lengths and a well-formed
/// address.
pub open spec fn prof_req_valid(q: ProfReqV) -> bool {
    &&& 1 <= q.tenant_id.len() <= 50
    &&& 3 <= q.name.len() <= 100
    &&& email_ok(q.email)
}

pub fn validate_professional_request(req: &CreateProfessionalRequest) -> (r: bool)
    ensures
        r == prof_req_valid(req@),
{
    let tn = req.tenant_id.as_str().unicode_len();
    let nn = req.name.as_str().unicode_len();
    1 <= tn && tn <= 50 && 3 <= nn && nn <= 100 && is_valid_email(&req.email)
}

pub open spec fn prof_schedule_of(q: ProfReqV) -> Seq<char> {
    match q.schedule {
        Some(s) => s,
        None => "{}"@,
    }
}

/// The attributes of a stored professional record.
pub open spec fn professional_attrs_spec(q: ProfReqV, id: Seq<char>, now_str: Seq<char>) -> AttrsV {
    seq![
        ("GSI1PK"@, AttrV::S(tenant_pk_spec(q.tenant_id))),
        ("GSI1SK"@, AttrV::S(professional_sk_spec(id))),
        ("GSI3PK"@, AttrV::S(professional_sk_spec(id))),
        ("GSI3SK"@, AttrV::S("METADATA"@)),
        ("id"@, AttrV::S(id)),
        ("tenantId"@, AttrV::S(q.tenant_id)),
        ("name"@, AttrV::S(q.name)),
        ("email"@, AttrV::S(q.email)),
        ("specialties"@, AttrV::L(q.specialties)),
        ("schedule"@, AttrV::S(prof_schedule_of(q))),
        ("status"@, AttrV::S("active"@)),
        ("createdAt"@, AttrV::S(now_str)),
    ]
}

/// The create transaction: validate, then one unconditional put.
pub open spec fn create_professional_model(
    m: Map<KeyV, AttrsV>,
    q: ProfReqV,
    id: Seq<char>,
    now: Timestamp,
) -> (Result<ProfessionalV, ApiErrV>, Map<KeyV, AttrsV>) {
    if !prof_req_valid(q) {
        (Err(ApiErrV::Validation("Validación fallida"@)), m)
    } else {
        (
            Ok(ProfessionalV {
                id: id,
                tenant_id: q.tenant_id,
                name: q.name,
                email: q.email,
                specialties: q.specialties,
                schedule: "{}"@,
                status: "active"@,
                created_at: fmt_rfc3339(now),
            }),
            m.insert(
                (tenant_pk_spec(q.tenant_id), professional_sk_spec(id)),
                professional_attrs_spec(q, id, fmt_rfc3339(now)),
            ),
        )
    }
}

/// Stores a professional record.  The returned record always
/// carries the empty schedule, whatever was stored.
pub fn create_professional(
    store: &mut Store,
    req: &CreateProfessionalRequest,
    prof_id: &String,
    now: &Timestamp,
) -> (r: Result<Professional, ApiError>)
    requires
        old(store).wf(),
        now.wf(),
    ensures
        final(store).wf(),
        final(store)@ == create_professional_model(old(store)@, req@, prof_id@, *now).1,
        match r {
            Ok(p) => create_professional_model(old(store)@, req@, prof_id@, *now).0 == Ok::<
                ProfessionalV,
                ApiErrV,
            >(p@),
            Err(e) => create_professional_model(old(store)@, req@, prof_id@, *now).0 == Err::<
                ProfessionalV,
                ApiErrV,
            >(e@),
        },
{
    if !validate_professional_request(req) {
        return Err(ApiError::Validation(lit("Validación fallida")));
    }
    let now_str = format_rfc3339(now);
    let schedule: String = match &req.schedule {
        Some(s) => s.clone(),
        None => lit("{}"),
    };
    let attrs: Vec<(String, AttrVal)> = vec![
        (lit("GSI1PK"), AttrVal::S(tenant_pk(req.tenant_id.as_str()))),
        (lit("GSI1SK"), AttrVal::S(professional_sk(prof_id.as_str()))),
        (lit("GSI3PK"), AttrVal::S(professional_sk(prof_id.as_str()))),
        (lit("GSI3SK"), AttrVal::S(lit("METADATA"))),
        (lit("id"), AttrVal::S(prof_id.clone())),
        (lit("tenantId"), AttrVal::S(req.tenant_id.clone())),
        (lit("name"), AttrVal::S(req.name.clone())),
        (lit("email"), AttrVal::S(req.email.clone())),
        (lit("specialties"), AttrVal::L(clone_string_vec(&req.specialties))),
        (lit("schedule"), AttrVal::S(schedule)),
        (lit("status"), AttrVal::S(lit("active"))),
        (lit("createdAt"), AttrVal::S(now_str.clone())),
    ];
    proof {
        assert(attrs_view(attrs@) =~= professional_attrs_spec(req@, prof_id@, fmt_rfc3339(
            *now,
        )));
    }
    store.put(tenant_pk(req.tenant_id.as_str()), professional_sk(prof_id.as_str()), attrs);
    Ok(Professional {
        id: prof_id.clone(),
        tenant_id: req.tenant_id.clone(),
        name: req.name.clone(),
        email: req.email.clone(),
        specialties: clone_string_vec(&req.specialties),
        schedule: lit("{}"),
        status: lit("active"),
        created_at: now_str,
    })
}

/// The professional an item denotes; a missing field falls back to
/// the listing defaults.
pub open spec fn professional_of_attrs(a: AttrsV) -> ProfessionalV {
    ProfessionalV {
        id: match attr_s(a, "id"@) {
            Some(s) => s,
            None => Seq::empty(),
        },
        tenant_id: match attr_s(a, "tenantId"@) {
            Some(s) => s,
            None => Seq::empty(),
        },
        name: match attr_s(a, "name"@) {
            Some(s) => s,
            None => Seq::empty(),
        },
        email: match attr_s(a, "email"@) {
            Some(s) => s,
            None => Seq::empty(),
        },
        specialties: match attr_of(a, "specialties"@) {
            Some(AttrV::L(v)) => v,
            _ => Seq::empty(),
        },
        schedule: match attr_s(a, "schedule"@) {
            Some(s) => s,
            None => "{}"@,
        },
        status: match attr_s(a, "status"@) {
            Some(s) => s,
            None => Seq::empty(),
        },
        created_at: match attr_s(a, "createdAt"@) {
            Some(s) => s,
            None => Seq::empty(),
        },
    }
}

/// Reads a professional out of an item.
pub fn professional_from_attrs(attrs: &Vec<(String, AttrVal)>) -> (r: Professional)
    ensures
        r@ == professional_of_attrs(attrs_view(attrs@)),
{
    let id = match get_attr_s(attrs, "id") {
        Some(s) => s,
        None => String::new(),
    };
    let tenant_id = match get_attr_s(attrs, "tenantId") {
        Some(s) => s,
        None => String::new(),
    };
    let name = match get_attr_s(attrs, "name") {
        Some(s) => s,
        None => String::new(),
    };
    let email = match get_attr_s(attrs, "email") {
        Some(s) => s,
        None => String::new(),
    };
    let specialties: Vec<String> = match get_attr(attrs, "specialties") {
        Some(AttrVal::L(v)) => clone_string_vec(v),
        _ => Vec::new(),
    };
    let schedule = match get_attr_s(attrs, "schedule") {
        Some(s) => s,
        None => lit("{}"),
    };
    let status = match get_attr_s(attrs, "status") {
        Some(s) => s,
        None => String::new(),
    };
    let created_at = match get_attr_s(attrs, "createdAt") {
        Some(s) => s,
        None => String::new(),
    };
    proof {
        assert(specialties@.map_values(|s: String| s@) =~= professional_of_attrs(
            attrs_view(attrs@),
        ).specialties);
    }
    Professional { id, tenant_id, name, email, specialties, schedule, status, created_at }
}

/// Whether some stored professional item of the tenant denotes `x`.
pub open spec fn prof_listed_from(m: Map<KeyV, AttrsV>, tenant: Seq<char>, x: Professional) -> bool {
    exists|k: KeyV|
        #[trigger] m.dom().contains(k) && k.0 == tenant_pk_spec(tenant)
            && "PROFESSIONAL#"@.is_prefix_of(k.1) && professional_of_attrs(m[k]) == x@
}

/// Whether the professional denoted by `attrs` appears in `v`.
pub open spec fn prof_listed_in(v: Seq<Professional>, attrs: AttrsV) -> bool {
    exists|i: int| 0 <= i < v.len() && (#[trigger] v[i])@ == professional_of_attrs(attrs)
}

/// What a correct professional listing holds.
pub open spec fn prof_listing_ok(
    m: Map<KeyV, AttrsV>,
    tenant: Seq<char>,
    v: Seq<Professional>,
) -> bool {
    &&& forall|i: int| 0 <= i < v.len() ==> prof_listed_from(m, tenant, #[trigger] v[i])
    &&& forall|k: KeyV|
        #[trigger] m.dom().contains(k) && k.0 == tenant_pk_spec(tenant)
            && "PROFESSIONAL#"@.is_prefix_of(k.1) ==> prof_listed_in(v, m[k])
}

/// Lists a tenant's professionals: one range query under the tenant's
/// partition, every item once.
#[verifier::rlimit(100)]
pub fn list_professionals(store: &Store, tenant_id: &str) -> (r: Vec<Professional>)
    requires
        store.wf(),
    ensures
        prof_listing_ok(store@, tenant_id@, r@),
{
    let pk = tenant_pk(tenant_id);
    let prefix = lit("PROFESSIONAL#");
    let rows = store.query_prefix(pk.as_str(), prefix.as_str());
    let mut out: Vec<Professional> = Vec::new();
    let ghost mut gkeys: Seq<KeyV> = Seq::empty();
    let mut i: usize = 0;
    while i < rows.len()
        invariant
            store.wf(),
            i <= rows@.len(),
            out@.len() == i,
            gkeys.len() == i,
            pk@ == tenant_pk_spec(tenant_id@),
            prefix@ == "PROFESSIONAL#"@,
            forall|j: int|
                0 <= j < rows@.len() ==> {
                    let rv = (#[trigger] rows@[j])@;
                    &&& rv.pk == pk@
                    &&& prefix@.is_prefix_of(rv.sk)
                    &&& store@.dom().contains(row_key(rv))
                    &&& store@[row_key(rv)] == rv.attrs
                },
            forall|k: KeyV|
                #[trigger] store@.dom().contains(k) && k.0 == pk@ && prefix@.is_prefix_of(k.1)
                    ==> exists|j: int|
                    0 <= j < rows@.len() && row_key((#[trigger] rows@[j])@) == k,
            forall|a: int|
                0 <= a < i ==> store@.dom().contains(#[trigger] gkeys[a]) && gkeys[a].0 == pk@
                    && "PROFESSIONAL#"@.is_prefix_of(gkeys[a].1) && professional_of_attrs(
                    store@[gkeys[a]],
                ) == out@[a]@,
            forall|j: int|
                0 <= j < i ==> (#[trigger] out@[j])@ == professional_of_attrs(
                    (#[trigger] rows@[j])@.attrs,
                ),
        decreases rows@.len() - i,
    {
        let p = professional_from_attrs(&rows[i].attrs);
        let ghost prev = out@;
        out.push(p);
        proof {
            gkeys = gkeys.push(row_key(rows@[i as int]@));
            assert(forall|a: int| 0 <= a < prev.len() ==> out@[a] == prev[a]);
            assert((rows@[i as int])@.attrs == attrs_view(rows@[i as int].attrs@));
            assert(out@[i as int]@ == professional_of_attrs(rows@[i as int]@.attrs));
        }
        i += 1;
    }
    proof {
        assert forall|i2: int| 0 <= i2 < out@.len() implies prof_listed_from(
            store@,
            tenant_id@,
            #[trigger] out@[i2],
        ) by {
            assert(store@.dom().contains(gkeys[i2]) && gkeys[i2].0 == tenant_pk_spec(tenant_id@)
                && "PROFESSIONAL#"@.is_prefix_of(gkeys[i2].1) && professional_of_attrs(
                store@[gkeys[i2]],
            ) == out@[i2]@);
        }
        assert forall|k: KeyV|
            #[trigger] store@.dom().contains(k) && k.0 == tenant_pk_spec(tenant_id@)
                && "PROFESSIONAL#"@.is_prefix_of(k.1) implies prof_listed_in(out@, store@[k]) by {
            let j = choose|j: int| 0 <= j < rows@.len() && row_key((#[trigger] rows@[j])@) == k;
            assert(out@[j]@ == professional_of_attrs(store@[k]));
        }
    }
    out
}

} // verus!
