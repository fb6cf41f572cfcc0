//! The availability calculator.
//!
//! Computes the free slots for a date and site by diffing a fixed
//! candidate grid — working window 09:00–17:00, 15-minute steps, each
//! candidate nominally 45 minutes long — against the occupied-slot
//! tokens read from the store in exactly one range query.  The
//! calculator has no side effects and never returns an occupied slot.

use vstd::prelude::*;
use crate::auth::{opt_view, require_tenant, require_tenant_model};
use crate::errors::{ApiError, ApiErrV};
use crate::keys::{slot_pk, slot_pk_spec};
use crate::store::{row_key, AttrsV, KeyV, Store};
use crate::text::{dec2, lit, push_2dig, push_char, str_starts_with};
use crate::time::{
    add_minutes, date_day_of, date_month_of, date_parses, date_year_of, fmt_date, fmt_rfc3339,
    format_date, idx_in_range, parse_date, shift_ts, Timestamp,
};

verus! {

/// A free slot offered to the caller.
pub struct Slot {
    pub start: String,
    pub end: String,
    pub professional_id: String,
    pub available: bool,
}

pub struct SlotV {
    pub start: Seq<char>,
    pub end: Seq<char>,
    pub professional_id: Seq<char>,
    pub available: bool,
}

impl View for Slot {
    type V = SlotV;

    open spec fn view(&self) -> SlotV {
        SlotV {
            start: self.start@,
            end: self.end@,
            professional_id: self.professional_id@,
            available: self.available,
        }
    }
}

/// The number of candidates in the working window: 8 hours in
/// 15-minute steps.
pub open spec fn grid_len() -> int {
    32
}

/// Hour of candidate `i` of the grid.
pub open spec fn cand_hour(i: int) -> int {
    9 + i / 4
}

/// Minute of candidate `i` of the grid.
pub open spec fn cand_minute(i: int) -> int {
    15 * (i % 4)
}

/// The `HH:MM` token of candidate `i`.
pub open spec fn cand_hm(i: int) -> Seq<char> {
    dec2(cand_hour(i)) + seq![':'] + dec2(cand_minute(i))
}

/// The occupied-token prefix a candidate is matched against:
/// `HH:MM` alone, or `HH:MM#professionalId` with a professional filter.
pub open spec fn cand_prefix(i: int, prof: Option<Seq<char>>) -> Seq<char> {
    match prof {
        Some(p) => cand_hm(i) + seq!['#'] + p,
        None => cand_hm(i),
    }
}

/// A candidate is free exactly when no occupied token starts with its
/// prefix.
pub open spec fn cand_free(i: int, prof: Option<Seq<char>>, occupied: Seq<Seq<char>>) -> bool {
    forall|j: int| 0 <= j < occupied.len() ==> !cand_prefix(i, prof).is_prefix_of(
        #[trigger] occupied[j],
    )
}

/// The timestamp of candidate `i` on the given date, in UTC.
pub open spec fn cand_ts(y: int, mth: int, d: int, i: int) -> Timestamp {
    Timestamp {
        year: y as i32,
        month: mth as u32,
        day: d as u32,
        hour: cand_hour(i) as u32,
        minute: cand_minute(i) as u32,
        second: 0,
        offset_sec: 0,
    }
}

/// The slot offered for free candidate `i`: start on the grid, end 45
/// minutes later, rendered in RFC 3339 with a `Z` offset.
pub open spec fn cand_slot(
    date: Seq<char>,
    y: int,
    mth: int,
    d: int,
    i: int,
    prof: Option<Seq<char>>,
) -> SlotV {
    SlotV {
        start: date + seq!['T'] + cand_hm(i) + ":00Z"@,
        end: fmt_rfc3339(shift_ts(cand_ts(y, mth, d, i), 45)),
        professional_id: match prof {
            Some(p) => p,
            None => "default"@,
        },
        available: true,
    }
}

/// The free slots of the grid, in grid order.
pub open spec fn free_slots(
    date: Seq<char>,
    y: int,
    mth: int,
    d: int,
    prof: Option<Seq<char>>,
    occupied: Seq<Seq<char>>,
    upto: int,
) -> Seq<SlotV>
    decreases upto,
{
    if upto <= 0 {
        Seq::empty()
    } else {
        let rest = free_slots(date, y, mth, d, prof, occupied, upto - 1);
        if cand_free(upto - 1, prof, occupied) {
            rest.push(cand_slot(date, y, mth, d, upto - 1, prof))
        } else {
            rest
        }
    }
}

pub open spec fn opt_string_view(o: Option<String>) -> Option<Seq<char>> {
    match o {
        Some(s) => Some(s@),
        None => None,
    }
}

/// Builds the grid and keeps the candidates whose prefix matches no
/// occupied token.
#[verifier::rlimit(100)]
pub fn compute_free_slots(
    date: &String,
    professional_id: &Option<String>,
    occupied: &Vec<String>,
) -> (r: Result<Vec<Slot>, ApiError>)
    ensures
        match r {
            Ok(v) => date_parses(date@) && v@.map_values(|s: Slot| s@) == free_slots(
                date@,
                date_year_of(date@),
                date_month_of(date@),
                date_day_of(date@),
                opt_string_view(*professional_id),
                occupied@.map_values(|s: String| s@),
                grid_len(),
            ),
            Err(e) => !date_parses(date@) && e@ == ApiErrV::Internal("Date parse error"@),
        },
{
    let (y, mth, d) = match parse_date(date.as_str()) {
        Some(p) => p,
        None => {
            return Err(ApiError::Internal(lit("Date parse error")));
        },
    };
    let ghost profv = opt_string_view(*professional_id);
    let ghost occv = occupied@.map_values(|s: String| s@);
    let mut out: Vec<Slot> = Vec::new();
    let mut i: usize = 0;
    while i < 32
        invariant
            i <= 32,
            date_parses(date@),
            y == date_year_of(date@),
            mth == date_month_of(date@),
            d == date_day_of(date@),
            profv == opt_string_view(*professional_id),
            occv == occupied@.map_values(|s: String| s@),
            occv.len() == occupied@.len(),
            out@.map_values(|s: Slot| s@) == free_slots(
                date@,
                y as int,
                mth as int,
                d as int,
                profv,
                occv,
                i as int,
            ),
        decreases 32 - i,
    {
        let hour: u32 = 9 + (i as u32) / 4;
        let minute: u32 = 15 * ((i as u32) % 4);
        // the HH:MM token of this candidate
        let mut hm = String::new();
        push_2dig(&mut hm, hour);
        push_char(&mut hm, ':');
        push_2dig(&mut hm, minute);
        proof {
            assert(hm@ =~= cand_hm(i as int));
        }
        // the prefix to match against the occupied tokens
        let prefix: String = match professional_id {
            Some(p) => {
                let mut s = hm.clone();
                push_char(&mut s, '#');
                s.append(p.as_str());
                proof {
                    assert(s@ =~= cand_prefix(i as int, profv));
                }
                s
            },
            None => {
                proof {
                    assert(hm@ =~= cand_prefix(i as int, profv));
                }
                hm.clone()
            },
        };
        let mut occupied_hit = false;
        let mut j: usize = 0;
        while j < occupied.len()
            invariant
                j <= occupied@.len(),
                occv == occupied@.map_values(|s: String| s@),
                occv.len() == occupied@.len(),
                prefix@ == cand_prefix(i as int, profv),
                occupied_hit == !(forall|j2: int|
                    0 <= j2 < j ==> !cand_prefix(i as int, profv).is_prefix_of(
                        #[trigger] occv[j2],
                    )),
            decreases occupied@.len() - j,
        {
            if str_starts_with(occupied[j].as_str(), prefix.as_str()) {
                proof {
                    assert(occv[j as int] == occupied@[j as int]@);
                }
                occupied_hit = true;
            } else {
                proof {
                    assert(occv[j as int] == occupied@[j as int]@);
                }
            }
            j += 1;
        }
        if !occupied_hit {
            // start string: date T HH:MM :00Z
            let mut start = String::new();
            start.append(date.as_str());
            push_char(&mut start, 'T');
            start.append(hm.as_str());
            start.append(":00Z");
            // end: 45 minutes after the candidate's start
            let ts = Timestamp {
                year: y,
                month: mth,
                day: d,
                hour,
                minute,
                second: 0,
                offset_sec: 0,
            };
            proof {
                assert(ts == cand_ts(y as int, mth as int, d as int, i as int));
                assert(ts.wf());
            }
            let end_ts = match add_minutes(&ts, 45) {
                Some(t) => t,
                None => {
                    // the grid ends at 17:30 of a day at most in year
                    // 9999, which is always in range
                    proof {
                        crate::time::lemma_min_idx_nonneg(ts);
                        crate::time::lemma_date_idx_bounds(ts);
                        crate::time::lemma_dby_mono(ts.year as int + 1, 10000);
                        assert(ts.min_idx() + 45 < crate::time::days_before_year(10000)
                            * 1440) by (nonlinear_arith)
                            requires
                                ts.date_idx() < crate::time::days_before_year(10000),
                                ts.hour <= 16,
                                ts.minute <= 45,
                                ts.min_idx() == ts.date_idx() * 1440 + ts.hour * 60 + ts.minute,
                        ;
                        assert(false);
                    }
                    return Err(ApiError::Internal(lit("Date parse error")));
                },
            };
            let end = crate::time::format_rfc3339(&end_ts);
            let ghost prev = out@;
            out.push(Slot {
                start,
                end,
                professional_id: match professional_id {
                    Some(p) => p.clone(),
                    None => lit("default"),
                },
                available: true,
            });
            proof {
                assert(cand_free(i as int, profv, occv));
                assert(out@[prev.len() as int]@.start =~= cand_slot(
                    date@,
                    y as int,
                    mth as int,
                    d as int,
                    i as int,
                    profv,
                ).start);
                assert(out@[prev.len() as int]@ == cand_slot(
                    date@,
                    y as int,
                    mth as int,
                    d as int,
                    i as int,
                    profv,
                ));
                assert(out@.map_values(|s: Slot| s@) =~= free_slots(
                    date@,
                    y as int,
                    mth as int,
                    d as int,
                    profv,
                    occv,
                    i + 1,
                ));
            }
        } else {
            proof {
                assert(!cand_free(i as int, profv, occv)) by {
                    let j2 = choose|j2: int|
                        0 <= j2 < occv.len() && cand_prefix(i as int, profv).is_prefix_of(
                            #[trigger] occv[j2],
                        );
                }
                assert(out@.map_values(|s: Slot| s@) == free_slots(
                    date@,
                    y as int,
                    mth as int,
                    d as int,
                    profv,
                    occv,
                    i + 1,
                ));
            }
        }
        i += 1;
    }
    Ok(out)
}

// ---------------------------------------------------------------------
// The occupied set and the full availability read
// ---------------------------------------------------------------------

/// The payload of an availability request.
pub struct AvailabilityRequest {
    pub site_id: String,
    pub professional_id: Option<String>,
    pub date: Option<String>,
}

pub struct AvailReqV {
    pub site_id: Seq<char>,
    pub professional_id: Option<Seq<char>>,
    pub date: Option<Seq<char>>,
}

impl View for AvailabilityRequest {
    type V = AvailReqV;

    open spec fn view(&self) -> AvailReqV {
        AvailReqV {
            site_id: self.site_id@,
            professional_id: opt_string_view(self.professional_id),
            date: opt_string_view(self.date),
        }
    }
}

pub open spec fn avail_req_valid(q: AvailReqV) -> bool {
    &&& 1 <= q.site_id.len() <= 50
    &&& match q.professional_id {
        Some(p) => 1 <= p.len() <= 50,
        None => true,
    }
}

/// Whether `tok` is the token of some slot reservation stored under
/// the partition of this tenant, site and date.
pub open spec fn token_occupied(
    m: Map<KeyV, AttrsV>,
    tenant: Seq<char>,
    site: Seq<char>,
    date: Seq<char>,
    tok: Seq<char>,
) -> bool {
    exists|k: KeyV|
        #[trigger] m.dom().contains(k) && k.0 == slot_pk_spec(tenant, site, date)
            && "SLOT#"@.is_prefix_of(k.1) && k.1.skip(5) == tok
}

pub open spec fn occ_contains(occ: Seq<Seq<char>>, tok: Seq<char>) -> bool {
    exists|j: int| 0 <= j < occ.len() && occ[j] == tok
}

/// Whether `occ` holds exactly the occupied tokens of the partition:
/// each listed token is stored, and each stored reservation's token is
/// listed.
pub open spec fn occ_ok(
    m: Map<KeyV, AttrsV>,
    tenant: Seq<char>,
    site: Seq<char>,
    date: Seq<char>,
    occ: Seq<Seq<char>>,
) -> bool {
    &&& forall|j: int|
        0 <= j < occ.len() ==> token_occupied(m, tenant, site, date, #[trigger] occ[j])
    &&& forall|k: KeyV|
        #[trigger] m.dom().contains(k) && k.0 == slot_pk_spec(tenant, site, date)
            && "SLOT#"@.is_prefix_of(k.1) ==> occ_contains(occ, k.1.skip(5))
}

/// Reads the occupied-slot tokens for a date and site: one range query
/// under the partition, the `SLOT#` prefix stripped off each sort key.
#[verifier::rlimit(100)]
pub fn query_occupied_slots(store: &Store, tenant_id: &str, site_id: &str, date: &str) -> (r: Vec<
    String,
>)
    requires
        store.wf(),
    ensures
        occ_ok(store@, tenant_id@, site_id@, date@, r@.map_values(|s: String| s@)),
{
    let pk = slot_pk(tenant_id, site_id, date);
    let prefix = lit("SLOT#");
    proof {
        reveal_strlit("SLOT#");
        assert(prefix@.len() == 5);
    }
    let rows = store.query_prefix(pk.as_str(), prefix.as_str());
    let mut out: Vec<String> = Vec::new();
    let ghost mut gkeys: Seq<KeyV> = Seq::empty();
    let mut i: usize = 0;
    while i < rows.len()
        invariant
            store.wf(),
            i <= rows@.len(),
            out@.len() == i,
            gkeys.len() == i,
            pk@ == slot_pk_spec(tenant_id@, site_id@, date@),
            prefix@ == "SLOT#"@,
            prefix@.len() == 5,
            forall|j: int|
                0 <= j < rows@.len() ==> {
                    let rv = (#[trigger] rows@[j])@;
                    &&& rv.pk == pk@
                    &&& prefix@.is_prefix_of(rv.sk)
                    &&& store@.dom().contains(row_key(rv))
                },
            forall|k: KeyV|
                #[trigger] store@.dom().contains(k) && k.0 == pk@ && prefix@.is_prefix_of(k.1)
                    ==> exists|j: int|
                    0 <= j < rows@.len() && row_key((#[trigger] rows@[j])@) == k,
            forall|a: int|
                0 <= a < i ==> store@.dom().contains(#[trigger] gkeys[a]) && gkeys[a].0 == pk@
                    && "SLOT#"@.is_prefix_of(gkeys[a].1) && gkeys[a].1.skip(5) == out@[a]@,
            forall|j: int|
                0 <= j < i ==> out@[j]@ == (#[trigger] rows@[j])@.sk.skip(5),
        decreases rows@.len() - i,
    {
        let sk = &rows[i].sk;
        let n = sk.as_str().unicode_len();
        proof {
            assert((rows@[i as int])@.sk == sk@);
            assert(prefix@.is_prefix_of(sk@));
            assert(n >= 5);
        }
        let tok = sk.as_str().substring_char(5, n).to_owned();
        let ghost prev = out@;
        out.push(tok);
        proof {
            gkeys = gkeys.push(row_key(rows@[i as int]@));
            assert(forall|a: int| 0 <= a < prev.len() ==> out@[a] == prev[a]);
            assert(out@[i as int]@ =~= (rows@[i as int])@.sk.skip(5));
        }
        i += 1;
    }
    proof {
        let occ = out@.map_values(|s: String| s@);
        assert forall|j: int| 0 <= j < occ.len() implies token_occupied(
            store@,
            tenant_id@,
            site_id@,
            date@,
            #[trigger] occ[j],
        ) by {
            assert(occ[j] == out@[j]@);
            assert(store@.dom().contains(gkeys[j]) && gkeys[j].0 == slot_pk_spec(
                tenant_id@,
                site_id@,
                date@,
            ) && "SLOT#"@.is_prefix_of(gkeys[j].1) && gkeys[j].1.skip(5) == occ[j]);
        }
        assert forall|k: KeyV|
            #[trigger] store@.dom().contains(k) && k.0 == slot_pk_spec(tenant_id@, site_id@, date@)
                && "SLOT#"@.is_prefix_of(k.1) implies occ_contains(
            out@.map_values(|s: String| s@),
            k.1.skip(5),
        ) by {
            let j = choose|j: int| 0 <= j < rows@.len() && row_key((#[trigger] rows@[j])@) == k;
            assert(out@[j]@ == rows@[j]@.sk.skip(5));
            assert(out@.map_values(|s: String| s@)[j] == k.1.skip(5));
        }
    }
    out
}

/// What the caller gets back: the free slots, their count, and the
/// date they were computed for.
pub struct AvailabilityOut {
    pub slots: Vec<Slot>,
    pub total: usize,
    pub date: String,
}

/// The date availability is computed for: the requested one, or
/// tomorrow relative to `now` (in UTC) when none was given.
pub open spec fn chosen_date(q: AvailReqV, now: Timestamp) -> Seq<char> {
    match q.date {
        Some(d) => d,
        None => fmt_date(shift_ts(now, 1440)),
    }
}

/// Which error an availability read reports, and when.
pub open spec fn availability_err(
    m: Map<KeyV, AttrsV>,
    auth: Option<Seq<char>>,
    q: AvailReqV,
    now: Timestamp,
    e: ApiErrV,
) -> bool {
    match require_tenant_model(auth) {
        Err(e0) => e == e0,
        Ok(t) => if !avail_req_valid(q) {
            e == ApiErrV::Validation("Validación fallida"@)
        } else if q.date is None && !idx_in_range(now.min_idx() + 1440) {
            e == ApiErrV::Internal("Hora de fin fuera de rango"@)
        } else {
            !date_parses(chosen_date(q, now)) && e == ApiErrV::Internal("Date parse error"@)
        },
    }
}

/// What a successful availability read returns for tenant `t`: the
/// chosen date, the slot count, and the grid diffed against a token
/// sequence that holds exactly the stored reservations.
pub open spec fn availability_ok(
    m: Map<KeyV, AttrsV>,
    t: Seq<char>,
    q: AvailReqV,
    now: Timestamp,
    slots: Seq<Slot>,
    total: int,
    date: Seq<char>,
) -> bool {
    let datestr = chosen_date(q, now);
    &&& avail_req_valid(q)
    &&& date == datestr
    &&& total == slots.len()
    &&& date_parses(datestr)
    &&& exists|occ: Seq<Seq<char>>|
        #[trigger] occ_ok(m, t, q.site_id, datestr, occ) && slots.map_values(|s: Slot| s@)
            == free_slots(
            datestr,
            date_year_of(datestr),
            date_month_of(datestr),
            date_day_of(datestr),
            q.professional_id,
            occ,
            grid_len(),
        )
}

/// The availability read: resolves the tenant, validates the payload,
/// picks the date, performs exactly one range query for the occupied
/// tokens and diffs the candidate grid against them.
pub fn availability(
    store: &Store,
    auth: Option<&str>,
    req: &AvailabilityRequest,
    now: &Timestamp,
) -> (r: Result<AvailabilityOut, ApiError>)
    requires
        store.wf(),
        now.wf(),
    ensures
        match r {
            Err(e) => availability_err(store@, opt_view(auth), req@, *now, e@),
            Ok(out) => require_tenant_model(opt_view(auth)) matches Ok(t)
                && availability_ok(
                store@,
                t,
                req@,
                *now,
                out.slots@,
                out.total as int,
                out.date@,
            ),
        },
{
    let tenant = match require_tenant(auth) {
        Ok(t) => t,
        Err(e) => {
            return Err(e);
        },
    };
    let site_ok = {
        let n = req.site_id.as_str().unicode_len();
        1 <= n && n <= 50
    };
    let prof_ok = match &req.professional_id {
        Some(p) => {
            let n = p.as_str().unicode_len();
            1 <= n && n <= 50
        },
        None => true,
    };
    if !site_ok || !prof_ok {
        return Err(ApiError::Validation(lit("Validación fallida")));
    }
    let date_str: String = match &req.date {
        Some(d) => d.clone(),
        None => {
            let tomorrow = match add_minutes(now, 1440) {
                Some(t) => t,
                None => {
                    return Err(ApiError::Internal(lit("Hora de fin fuera de rango")));
                },
            };
            format_date(&tomorrow)
        },
    };
    let occupied = query_occupied_slots(store, tenant.as_str(), req.site_id.as_str(),
        date_str.as_str());
    let slots = match compute_free_slots(&date_str, &req.professional_id, &occupied) {
        Ok(v) => v,
        Err(e) => {
            return Err(e);
        },
    };
    let total = slots.len();
    proof {
        let occ = occupied@.map_values(|s: String| s@);
        assert(occ_ok(store@, tenant@, req@.site_id, date_str@, occ));
        assert(avail_req_valid(req@));
        assert(date_str@ == chosen_date(req@, *now));
        assert(date_parses(date_str@));
        assert(require_tenant_model(opt_view(auth)) == Ok::<Seq<char>, ApiErrV>(tenant@));
        assert(slots@.map_values(|s: Slot| s@) == free_slots(
            date_str@,
            date_year_of(date_str@),
            date_month_of(date_str@),
            date_day_of(date_str@),
            req@.professional_id,
            occ,
            grid_len(),
        ));
        assert(availability_ok(store@, tenant@, req@, *now, slots@, total as int, date_str@));
    }
    Ok(AvailabilityOut { slots, total, date: date_str })
}

/// What an availability read's outcome means for a given moment.
pub open spec fn availability_outcome(
    m: Map<KeyV, AttrsV>,
    auth: Option<Seq<char>>,
    q: AvailReqV,
    now: Timestamp,
    r: Result<AvailabilityOut, ApiError>,
) -> bool {
    match r {
        Err(e) => availability_err(m, auth, q, now, e@),
        Ok(out) => require_tenant_model(auth) matches Ok(t) && availability_ok(
            m,
            t,
            q,
            now,
            out.slots@,
            out.total as int,
            out.date@,
        ),
    }
}

/// The availability read relative to the current moment (which only
/// matters when no date was requested), as the request handler does
/// it.
pub fn availability_now(store: &Store, auth: Option<&str>, req: &AvailabilityRequest) -> (r:
    Result<AvailabilityOut, ApiError>)
    requires
        store.wf(),
    ensures
        exists|now: Timestamp|
            now.wf() && #[trigger] availability_outcome(store@, opt_view(auth), req@, now, r),
{
    let now = crate::time::now_utc();
    let r = availability(store, auth, req, &now);
    proof {
        assert(availability_outcome(store@, opt_view(auth), req@, now, r));
    }
    r
}

} // verus!