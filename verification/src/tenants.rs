//! Tenant records: provisioning and the point read, at the boundary
//! of the booking engine.

use vstd::prelude::*;
use crate::errors::{ApiError, ApiErrV};
use crate::keys::{metadata_sk, tenant_pk, tenant_pk_spec};
use crate::store::{attr_s, attrs_view, get_attr_s, AttrV, AttrVal, AttrsV, KeyV, Store};
use crate::text::lit;
use crate::time::{fmt_rfc3339, format_rfc3339, Timestamp};

verus! {

/// Whether validator's email rule accepts `s`.  The result depends on
/// the characters of `s` alone.
pub uninterp spec fn email_ok(s: Seq<char>) -> bool;

/// Relies on validator's `ValidateEmail` for strings: a deterministic
/// syntactic check of the address.
#[verifier::external_body]
pub(crate) fn is_valid_email(s: &String) -> (r: bool)
    ensures
        r == email_ok(s@),
{
    validator::ValidateEmail::validate_email(s)
}

pub struct CreateTenantRequest {
    pub name: String,
    pub contact_email: String,
    pub timezone: Option<String>,
}

pub struct TenantReqV {
    pub name: Seq<char>,
    pub contact_email: Seq<char>,
    pub timezone: Option<Seq<char>>,
}

impl View for CreateTenantRequest {
    type V = TenantReqV;

    open spec fn view(&self) -> TenantReqV {
        TenantReqV {
            name: self.name@,
            contact_email: self.contact_email@,
            timezone: match self.timezone {
                Some(ref t) => Some(t@),
                None => None,
            },
        }
    }
}

pub struct Tenant {
    pub id: String,
    pub name: String,
    pub contact_email: String,
    pub timezone: String,
    pub created_at: String,
    pub status: String,
}

pub struct TenantV {
    pub id: Seq<char>,
    pub name: Seq<char>,
    pub contact_email: Seq<char>,
    pub timezone: Seq<char>,
    pub created_at: Seq<char>,
    pub status: Seq<char>,
}

impl View for Tenant {
    type V = TenantV;

    open spec fn view(&self) -> TenantV {
        TenantV {
            id: self.id@,
            name: self.name@,
            contact_email: self.contact_email@,
            timezone: self.timezone@,
            created_at: self.created_at@,
            status: self.status@,
        }
    }
}

/// The provisioning rules: a name of 3 to 100 characters and a
/// well-formed contact address.
pub open spec fn tenant_req_valid(q: TenantReqV) -> bool {
    &&& 3 <= q.name.len() <= 100
    &&& email_ok(q.contact_email)
}

pub fn validate_tenant_request(req: &CreateTenantRequest) -> (r: bool)
    ensures
        r == tenant_req_valid(req@),
{
    let nn = req.name.as_str().unicode_len();
    3 <= nn && nn <= 100 && is_valid_email(&req.contact_email)
}

/// The timezone stored: the requested one, or the network's default.
pub open spec fn tenant_timezone_of(q: TenantReqV) -> Seq<char> {
    match q.timezone {
        Some(t) => t,
        None => "America/Bogota"@,
    }
}

/// The attributes of a stored tenant record.
pub open spec fn tenant_attrs_spec(q: TenantReqV, id: Seq<char>, now_str: Seq<char>) -> AttrsV {
    seq![
        ("GSI1PK"@, AttrV::S("TENANT"@)),
        ("GSI1SK"@, AttrV::S(tenant_pk_spec(id))),
        ("id"@, AttrV::S(id)),
        ("name"@, AttrV::S(q.name)),
        ("contactEmail"@, AttrV::S(q.contact_email)),
        ("timezone"@, AttrV::S(tenant_timezone_of(q))),
        ("createdAt"@, AttrV::S(now_str)),
        ("status"@, AttrV::S("active"@)),
    ]
}

/// The provisioning transaction: validate, then one unconditional put
/// under (`TENANT#{id}`, `METADATA`).
pub open spec fn create_tenant_model(
    m: Map<KeyV, AttrsV>,
    q: TenantReqV,
    id: Seq<char>,
    now: Timestamp,
) -> (Result<TenantV, ApiErrV>, Map<KeyV, AttrsV>) {
    if !tenant_req_valid(q) {
        (Err(ApiErrV::Validation("Validación fallida"@)), m)
    } else {
        (
            Ok(TenantV {
                id: id,
                name: q.name,
                contact_email: q.contact_email,
                timezone: tenant_timezone_of(q),
                created_at: fmt_rfc3339(now),
                status: "active"@,
            }),
            m.insert(
                (tenant_pk_spec(id), "METADATA"@),
                tenant_attrs_spec(q, id, fmt_rfc3339(now)),
            ),
        )
    }
}

/// Stores a tenant record.
pub fn create_tenant(
    store: &mut Store,
    req: &CreateTenantRequest,
    tenant_id: &String,
    now: &Timestamp,
) -> (r: Result<Tenant, ApiError>)
    requires
        old(store).wf(),
        now.wf(),
    ensures
        final(store).wf(),
        final(store)@ == create_tenant_model(old(store)@, req@, tenant_id@, *now).1,
        match r {
            Ok(t) => create_tenant_model(old(store)@, req@, tenant_id@, *now).0 == Ok::<
                TenantV,
                ApiErrV,
            >(t@),
            Err(e) => create_tenant_model(old(store)@, req@, tenant_id@, *now).0 == Err::<
                TenantV,
                ApiErrV,
            >(e@),
        },
{
    if !validate_tenant_request(req) {
        return Err(ApiError::Validation(lit("Validación fallida")));
    }
    let now_str = format_rfc3339(now);
    let timezone: String = match &req.timezone {
        Some(t) => t.clone(),
        None => lit("America/Bogota"),
    };
    let attrs: Vec<(String, AttrVal)> = vec![
        (lit("GSI1PK"), AttrVal::S(lit("TENANT"))),
        (lit("GSI1SK"), AttrVal::S(tenant_pk(tenant_id.as_str()))),
        (lit("id"), AttrVal::S(tenant_id.clone())),
        (lit("name"), AttrVal::S(req.name.clone())),
        (lit("contactEmail"), AttrVal::S(req.contact_email.clone())),
        (lit("timezone"), AttrVal::S(timezone.clone())),
        (lit("createdAt"), AttrVal::S(now_str.clone())),
        (lit("status"), AttrVal::S(lit("active"))),
    ];
    proof {
        assert(attrs_view(attrs@) =~= tenant_attrs_spec(req@, tenant_id@, fmt_rfc3339(*now)));
    }
    store.put(tenant_pk(tenant_id.as_str()), metadata_sk(), attrs);
    Ok(Tenant {
        id: tenant_id.clone(),
        name: req.name.clone(),
        contact_email: req.contact_email.clone(),
        timezone,
        created_at: now_str,
        status: lit("active"),
    })
}

/// The tenant an item denotes; a missing field falls back to the
/// read defaults.
pub open spec fn tenant_of_attrs(id_attrs: AttrsV) -> TenantV {
    TenantV {
        id: match attr_s(id_attrs, "id"@) {
            Some(s) => s,
            None => Seq::empty(),
        },
        name: match attr_s(id_attrs, "name"@) {
            Some(s) => s,
            None => Seq::empty(),
        },
        contact_email: match attr_s(id_attrs, "contactEmail"@) {
            Some(s) => s,
            None => Seq::empty(),
        },
        timezone: match attr_s(id_attrs, "timezone"@) {
            Some(s) => s,
            None => "UTC"@,
        },
        created_at: match attr_s(id_attrs, "createdAt"@) {
            Some(s) => s,
            None => Seq::empty(),
        },
        status: match attr_s(id_attrs, "status"@) {
            Some(s) => s,
            None => Seq::empty(),
        },
    }
}

/// The not-found message for a tenant read: `Tenant {id} no
/// encontrado`.
pub open spec fn tenant_not_found_msg(id: Seq<char>) -> Seq<char> {
    "Tenant "@ + id + " no encontrado"@
}

/// Reads a tenant record by id.
pub fn get_tenant(store: &Store, id: &String) -> (r: Result<Tenant, ApiError>)
    requires
        store.wf(),
    ensures
        ({
            let k = (tenant_pk_spec(id@), "METADATA"@);
            match r {
                Ok(t) => store@.dom().contains(k) && t@ == tenant_of_attrs(store@[k]),
                Err(e) => !store@.dom().contains(k) && e@ == ApiErrV::NotFound(
                    tenant_not_found_msg(id@),
                ),
            }
        }),
{
    let pk = tenant_pk(id.as_str());
    let msk = metadata_sk();
    match store.get(pk.as_str(), msk.as_str()) {
        Some(attrs) => {
            let id2 = match get_attr_s(attrs, "id") {
                Some(s) => s,
                None => String::new(),
            };
            let name = match get_attr_s(attrs, "name") {
                Some(s) => s,
                None => String::new(),
            };
            let contact_email = match get_attr_s(attrs, "contactEmail") {
                Some(s) => s,
                None => String::new(),
            };
            let timezone = match get_attr_s(attrs, "timezone") {
                Some(s) => s,
                None => lit("UTC"),
            };
            let created_at = match get_attr_s(attrs, "createdAt") {
                Some(s) => s,
                None => String::new(),
            };
            let status = match get_attr_s(attrs, "status") {
                Some(s) => s,
                None => String::new(),
            };
            Ok(Tenant { id: id2, name, contact_email, timezone, created_at, status })
        },
        None => {
            let mut msg = String::new();
            msg.append("Tenant ");
            msg.append(id.as_str());
            msg.append(" no encontrado");
            proof {
                assert(msg@ =~= tenant_not_found_msg(id@));
            }
            Err(ApiError::NotFound(msg))
        },
    }
}

} // verus!
