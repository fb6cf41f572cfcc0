//! The table's key scheme, preserved bit-exactly:
//!
//! - booking metadata: partition `BOOKING#{id}`, sort `METADATA`;
//! - slot reservation: partition `TENANT#{t}#SITE#{s}#DATE#{yyyy-mm-dd}`,
//!   sort `SLOT#{HH:MM}#{professionalId}`;
//! - tenant-owned records: partition `TENANT#{t}`, sort
//!   `TREATMENT#{id}` / `PROFESSIONAL#{id}` / `METADATA`.

use vstd::prelude::*;

verus! {

pub open spec fn slot_pk_spec(tenant: Seq<char>, site: Seq<char>, date: Seq<char>) -> Seq<char> {
    "TENANT#"@ + tenant + "#SITE#"@ + site + "#DATE#"@ + date
}

pub open spec fn slot_sk_spec(hm: Seq<char>, professional: Seq<char>) -> Seq<char> {
    "SLOT#"@ + hm + "#"@ + professional
}

pub open spec fn booking_pk_spec(id: Seq<char>) -> Seq<char> {
    "BOOKING#"@ + id
}

pub open spec fn tenant_pk_spec(tenant: Seq<char>) -> Seq<char> {
    "TENANT#"@ + tenant
}

pub open spec fn treatment_sk_spec(id: Seq<char>) -> Seq<char> {
    "TREATMENT#"@ + id
}

pub open spec fn professional_sk_spec(id: Seq<char>) -> Seq<char> {
    "PROFESSIONAL#"@ + id
}

/// The first characters of the sort-key shapes, which keep the
/// engine's row kinds apart whatever the embedded identifiers hold.
pub proof fn lemma_sk_shapes(hm: Seq<char>, professional: Seq<char>, id: Seq<char>)
    ensures
        slot_sk_spec(hm, professional).len() > 0,
        slot_sk_spec(hm, professional)[0] == 'S',
        "METADATA"@.len() > 0,
        "METADATA"@[0] == 'M',
        treatment_sk_spec(id).len() > 0,
        treatment_sk_spec(id)[0] == 'T',
        professional_sk_spec(id).len() > 0,
        professional_sk_spec(id)[0] == 'P',
{
    reveal_strlit("SLOT#");
    reveal_strlit("METADATA");
    reveal_strlit("TREATMENT#");
    reveal_strlit("PROFESSIONAL#");
}

/// `TENANT#{t}#SITE#{s}#DATE#{date}`.
pub fn slot_pk(tenant: &str, site: &str, date: &str) -> (r: String)
    ensures
        r@ == slot_pk_spec(tenant@, site@, date@),
{
    let mut s = String::new();
    s.append("TENANT#");
    s.append(tenant);
    s.append("#SITE#");
    s.append(site);
    s.append("#DATE#");
    s.append(date);
    assert(s@ =~= slot_pk_spec(tenant@, site@, date@));
    s
}

/// `SLOT#{hm}#{professional}`.
pub fn slot_sk(hm: &str, professional: &str) -> (r: String)
    ensures
        r@ == slot_sk_spec(hm@, professional@),
{
    let mut s = String::new();
    s.append("SLOT#");
    s.append(hm);
    s.append("#");
    s.append(professional);
    assert(s@ =~= slot_sk_spec(hm@, professional@));
    s
}

/// `BOOKING#{id}`.
pub fn booking_pk(id: &str) -> (r: String)
    ensures
        r@ == booking_pk_spec(id@),
{
    let mut s = String::new();
    s.append("BOOKING#");
    s.append(id);
    assert(s@ =~= booking_pk_spec(id@));
    s
}

/// `TENANT#{tenant}`.
pub fn tenant_pk(tenant: &str) -> (r: String)
    ensures
        r@ == tenant_pk_spec(tenant@),
{
    let mut s = String::new();
    s.append("TENANT#");
    s.append(tenant);
    assert(s@ =~= tenant_pk_spec(tenant@));
    s
}

/// `TREATMENT#{id}`.
pub fn treatment_sk(id: &str) -> (r: String)
    ensures
        r@ == treatment_sk_spec(id@),
{
    let mut s = String::new();
    s.append("TREATMENT#");
    s.append(id);
    assert(s@ =~= treatment_sk_spec(id@));
    s
}

/// `PROFESSIONAL#{id}`.
pub fn professional_sk(id: &str) -> (r: String)
    ensures
        r@ == professional_sk_spec(id@),
{
    let mut s = String::new();
    s.append("PROFESSIONAL#");
    s.append(id);
    assert(s@ =~= professional_sk_spec(id@));
    s
}

/// The fixed metadata sort key.
pub fn metadata_sk() -> (r: String)
    ensures
        r@ == "METADATA"@,
{
    let mut s = String::new();
    s.append("METADATA");
    assert(s@ =~= "METADATA"@);
    s
}

} // verus!
