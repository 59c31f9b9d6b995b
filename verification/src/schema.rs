//! The fixed response schemas of the upstream API and their strict
//! decoders. Decoding ignores unknown fields and fails with
//! `Malformed` when a required field is missing or has the wrong
//! shape. Numeric fields that carry measurements keep their exact
//! source token; counters are decoded as unsigned integers of at
//! most nineteen digits.
use vstd::prelude::*;
use crate::json::{
    Json,
    JsonV,
    jv,
    jvs,
    jvm,
    is_digit,
    parse_doc,
    parse_json,
    string_chars,
};
use crate::FetchError;

verus! {

broadcast use vstd::std_specs::vec::group_vec_axioms, vstd::seq::axiom_seq_index_decreases;

/// A top-level entity (project/group).
pub struct Group {
    pub id: String,
    pub name: String,
}

/// The first page of the group listing.
pub struct GroupListing {
    pub results: Vec<Group>,
    pub total_count: u16,
}

/// The model of a group: its id and its name.
pub open spec fn group_model(g: Group) -> (Seq<char>, Seq<char>) {
    (g.id@, g.name@)
}

/// The models of a sequence of groups.
pub open spec fn groups_model(gs: Seq<Group>) -> Seq<(Seq<char>, Seq<char>)> {
    Seq::new(
        gs.len(),
        |k: int|
            if 0 <= k && k < gs.len() {
                group_model(gs[k])
            } else {
                (Seq::empty(), Seq::empty())
            },
    )
}

/// First value bound to `key` in an object's members.
pub open spec fn obj_get(ms: Seq<(Seq<char>, JsonV)>, key: Seq<char>, k: int) -> Option<JsonV>
    decreases ms.len() - k,
{
    if !(0 <= k && k < ms.len()) {
        None
    } else if ms[k].0 == key {
        Some(ms[k].1)
    } else {
        obj_get(ms, key, k + 1)
    }
}

/// The string content of a JSON string value.
pub open spec fn dec_str(v: JsonV) -> Option<Seq<char>> {
    match v {
        JsonV::Str(t) => Some(t),
        _ => None,
    }
}

pub open spec fn all_digits(t: Seq<char>) -> bool {
    forall|k: int| 0 <= k < t.len() ==> is_digit(#[trigger] t[k])
}

/// The value of a non-empty sequence of decimal digits.
pub open spec fn digits_val(t: Seq<char>) -> int
    decreases t.len(),
{
    if t.len() == 0 {
        0
    } else {
        digits_val(t.drop_last()) * 10 + (t[t.len() - 1] as u32 - '0' as u32)
    }
}

/// The unsigned value of a JSON number: a plain run of one to
/// nineteen digits (so that it always fits in sixty-four bits).
pub open spec fn dec_uint(v: JsonV) -> Option<int> {
    match v {
        JsonV::Num(t) => if all_digits(t) && 1 <= t.len() <= 19 {
            Some(digits_val(t))
        } else {
            None
        },
        _ => None,
    }
}

/// The token of a JSON number value.
pub open spec fn dec_num(v: JsonV) -> Option<Seq<char>> {
    match v {
        JsonV::Num(t) => Some(t),
        _ => None,
    }
}

/// The model of one decoded group object.
pub open spec fn dec_group(v: JsonV) -> Option<(Seq<char>, Seq<char>)> {
    match v {
        JsonV::Obj(ms) => match (obj_get(ms, "id"@, 0), obj_get(ms, "name"@, 0)) {
            (Some(iv), Some(nv)) => match (dec_str(iv), dec_str(nv)) {
                (Some(i), Some(n)) => Some((i, n)),
                _ => None,
            },
            _ => None,
        },
        _ => None,
    }
}

/// The models of a decoded group array, from index `k` on.
pub open spec fn dec_groups_from(es: Seq<JsonV>, k: int) -> Option<Seq<(Seq<char>, Seq<char>)>>
    decreases es.len() - k,
{
    if !(0 <= k && k <= es.len()) {
        None
    } else if k == es.len() {
        Some(Seq::empty())
    } else {
        match (dec_group(es[k]), dec_groups_from(es, k + 1)) {
            (Some(g), Some(rest)) => Some(seq![g] + rest),
            _ => None,
        }
    }
}

/// The model of a decoded group listing document.
pub open spec fn dec_group_listing(v: JsonV) -> Option<(Seq<(Seq<char>, Seq<char>)>, int)> {
    match v {
        JsonV::Obj(ms) => match (obj_get(ms, "results"@, 0), obj_get(ms, "totalCount"@, 0)) {
            (Some(rv), Some(tv)) => match rv {
                JsonV::Arr(es) => match (dec_groups_from(es, 0), dec_uint(tv)) {
                    (Some(gs), Some(t)) => if t <= u16::MAX {
                        Some((gs, t))
                    } else {
                        None
                    },
                    _ => None,
                },
                _ => None,
            },
            _ => None,
        },
        _ => None,
    }
}

/// First value bound to `key`, searching from index `k`.
fn obj_get_e<'a>(ms: &'a Vec<(String, Json)>, key: &String, k: usize) -> (r: Option<&'a Json>)
    requires
        k <= ms@.len(),
    ensures
        r is None ==> obj_get(jvm(ms@), key@, k as int) is None,
        r matches Some(j) ==> obj_get(jvm(ms@), key@, k as int) == Some(jv(*j)),
    decreases ms@.len() - k,
{
    if k == ms.len() {
        None
    } else if ms[k].0 == *key {
        proof {
            assert(jvm(ms@)[k as int].0 == ms@[k as int].0@);
        }
        Some(&ms[k].1)
    } else {
        proof {
            assert(jvm(ms@)[k as int].0 == ms@[k as int].0@);
        }
        obj_get_e(ms, key, k + 1)
    }
}

/// The string content of a JSON string value.
fn dec_str_e(j: &Json) -> (r: Result<String, FetchError>)
    ensures
        r matches Ok(s) ==> dec_str(jv(*j)) == Some(s@),
        r matches Err(e) ==> dec_str(jv(*j)) is None && e is Malformed,
{
    match j {
        Json::Str(t) => Ok(t.clone()),
        _ => Err(FetchError::Malformed),
    }
}

proof fn lemma_digits_val_small(t: Seq<char>, n: int)
    requires
        all_digits(t),
        t.len() <= n,
        0 <= n,
    ensures
        0 <= digits_val(t) < pow10(n as nat),
    decreases t.len(),
{
    if t.len() == 0 {
        lemma_pow10_pos(n as nat);
    } else {
        assert(all_digits(t.drop_last())) by {
            assert(forall|k: int|
                0 <= k < t.len() - 1 ==> #[trigger] t.drop_last()[k] == t[k]);
        }
        lemma_digits_val_small(t.drop_last(), n - 1);
        lemma_pow10_mono(n - 1, n);
        assert(pow10(n as nat) == 10 * pow10((n - 1) as nat));
        assert(digits_val(t) == digits_val(t.drop_last()) * 10 + (t[t.len() - 1] as u32 - '0'
            as u32));
        assert((t[t.len() - 1] as u32) - ('0' as u32) < 10);
    }
}

pub open spec fn pow10(n: nat) -> int
    decreases n,
{
    if n == 0 {
        1
    } else {
        10 * pow10((n - 1) as nat)
    }
}

proof fn lemma_pow10_pos(n: nat)
    ensures
        pow10(n) >= 1,
    decreases n,
{
    if n > 0 {
        lemma_pow10_pos((n - 1) as nat);
    }
}

proof fn lemma_pow10_mono(a: int, b: int)
    requires
        0 <= a <= b,
    ensures
        pow10(a as nat) <= pow10(b as nat),
    decreases b - a,
{
    if a < b {
        lemma_pow10_mono(a, b - 1);
        lemma_pow10_pos((b - 1) as nat);
    }
}

/// The unsigned value of a JSON number of at most nineteen digits.
#[verifier::loop_isolation(false)]
fn dec_uint_e(j: &Json) -> (r: Result<u64, FetchError>)
    ensures
        r matches Ok(n) ==> dec_uint(jv(*j)) == Some(n as int),
        r matches Err(e) ==> dec_uint(jv(*j)) is None && e is Malformed,
{
    let t = match j {
        Json::Num(t) => t,
        _ => {
            return Err(FetchError::Malformed);
        },
    };
    let cs = string_chars(t.as_str());
    let n = cs.len();
    if n == 0 || n > 19 {
        return Err(FetchError::Malformed);
    }
    let mut acc: u64 = 0;
    let mut k: usize = 0;
    proof {
        assert(cs@.subrange(0, 0) =~= Seq::<char>::empty());
        lemma_pow10_pos(0);
    }
    while k < n
        invariant
            n == cs@.len(),
            1 <= n <= 19,
            k <= n,
            forall|q: int| 0 <= q < k ==> is_digit(#[trigger] cs@[q]),
            acc as int == digits_val(cs@.subrange(0, k as int)),
            (acc as int) < pow10(k as nat),
        decreases n - k,
    {
        let c = cs[k];
        if !('0' <= c && c <= '9') {
            proof {
                assert(!is_digit(cs@[k as int]));
            }
            return Err(FetchError::Malformed);
        }
        let d: u64 = (c as u32 - 48) as u64;
        proof {
            assert(all_digits(cs@.subrange(0, k as int))) by {
                assert(forall|q: int|
                    0 <= q < k ==> #[trigger] cs@.subrange(0, k as int)[q] == cs@[q]);
            }
            lemma_digits_val_small(cs@.subrange(0, k as int), 18);
            lemma_pow10_mono(k as int, 18);
            assert(pow10(18) == 1000000000000000000) by {
                reveal_with_fuel(pow10, 20);
            }
            assert(cs@.subrange(0, k + 1 as int).drop_last() =~= cs@.subrange(0, k as int));
            assert(cs@.subrange(0, k + 1 as int).last() == cs@[k as int]);
        }
        acc = acc * 10 + d;
        k = k + 1;
    }
    proof {
        assert(cs@.subrange(0, n as int) =~= cs@);
        assert(all_digits(cs@));
    }
    Ok(acc)
}

/// One decoded group object.
fn dec_group_e(j: &Json) -> (r: Result<Group, FetchError>)
    ensures
        r matches Ok(g) ==> dec_group(jv(*j)) == Some(group_model(g)),
        r matches Err(e) ==> dec_group(jv(*j)) is None && e is Malformed,
{
    let ms = match j {
        Json::Obj(ms) => ms,
        _ => {
            return Err(FetchError::Malformed);
        },
    };
    let kid = String::from_str("id");
    let kname = String::from_str("name");
    let iv = match obj_get_e(ms, &kid, 0) {
        Some(v) => v,
        None => {
            return Err(FetchError::Malformed);
        },
    };
    let nv = match obj_get_e(ms, &kname, 0) {
        Some(v) => v,
        None => {
            return Err(FetchError::Malformed);
        },
    };
    let id = match dec_str_e(iv) {
        Ok(s) => s,
        Err(e) => {
            return Err(e);
        },
    };
    let name = match dec_str_e(nv) {
        Ok(s) => s,
        Err(e) => {
            return Err(e);
        },
    };
    Ok(Group { id, name })
}

/// A decoded group listing document.
#[verifier::loop_isolation(false)]
pub fn decode_group_listing(body: &str) -> (r: Result<GroupListing, FetchError>)
    ensures
        r matches Ok(g) ==> ({
            &&& parse_doc(body@) matches Some(d)
            &&& dec_group_listing(d) == Some((groups_model(g.results@), g.total_count as int))
        }),
        r matches Err(e) ==> e is Malformed && (match parse_doc(body@) {
            Some(d) => dec_group_listing(d) is None,
            None => true,
        }),
{
    let j = match parse_json(body) {
        Some(j) => j,
        None => {
            return Err(FetchError::Malformed);
        },
    };
    let ms = match &j {
        Json::Obj(ms) => ms,
        _ => {
            return Err(FetchError::Malformed);
        },
    };
    let kresults = String::from_str("results");
    let ktotal = String::from_str("totalCount");
    let rv = match obj_get_e(ms, &kresults, 0) {
        Some(v) => v,
        None => {
            return Err(FetchError::Malformed);
        },
    };
    let tv = match obj_get_e(ms, &ktotal, 0) {
        Some(v) => v,
        None => {
            return Err(FetchError::Malformed);
        },
    };
    let es = match rv {
        Json::Arr(es) => es,
        _ => {
            return Err(FetchError::Malformed);
        },
    };
    let total = match dec_uint_e(tv) {
        Ok(n) => n,
        Err(e) => {
            return Err(e);
        },
    };
    if total > 65535 {
        return Err(FetchError::Malformed);
    }
    let mut results: Vec<Group> = Vec::new();
    let mut k: usize = 0;
    proof {
        assert(groups_model(results@) =~= Seq::<(Seq<char>, Seq<char>)>::empty());
    }
    while k < es.len()
        invariant
            k <= es@.len(),
            ({
                let full = dec_groups_from(jvs(es@), 0);
                match dec_groups_from(jvs(es@), k as int) {
                    Some(rest) => full == Some(groups_model(results@) + rest),
                    None => full is None,
                }
            }),
        decreases es@.len() - k,
    {
        let g = match dec_group_e(&es[k]) {
            Ok(g) => g,
            Err(e) => {
                proof {
                    assert(jvs(es@)[k as int] == jv(es@[k as int]));
                    assert(dec_groups_from(jvs(es@), k as int) is None);
                    assert(dec_groups_from(jvs(es@), 0) is None);
                }
                return Err(e);
            },
        };
        let ghost r0 = results@;
        let ghost g0 = g;
        results.push(g);
        proof {
            assert(jvs(es@)[k as int] == jv(es@[k as int]));
            match dec_groups_from(jvs(es@), k + 1 as int) {
                Some(rest) => {
                    assert(groups_model(results@) =~= groups_model(r0).push(group_model(g0)));
                    assert(groups_model(r0) + (seq![group_model(g0)] + rest) =~= groups_model(
                        results@,
                    ) + rest);
                },
                None => {},
            }
        }
        k = k + 1;
    }
    proof {
        assert(dec_groups_from(jvs(es@), es@.len() as int) == Some(
            Seq::<(Seq<char>, Seq<char>)>::empty(),
        ));
        assert(groups_model(results@) + Seq::<(Seq<char>, Seq<char>)>::empty() =~= groups_model(
            results@,
        ));
    }
    Ok(GroupListing { results, total_count: total as u16 })
}


/// A cluster, known by its name.
pub struct ClusterListing {
    pub results: Vec<String>,
}

/// A database user's scope.
pub struct Scope {
    pub name: String,
    /// The scope's wire field is named `type`.
    pub kind: String,
}

/// A database user and the scopes it is limited to.
pub struct UserEntry {
    pub username: String,
    pub scopes: Vec<Scope>,
}

/// The first page of a group's database-user listing.
pub struct UserListing {
    pub results: Vec<UserEntry>,
}

/// A cluster's change status.
pub struct ChangeStatus {
    pub change_status: String,
}

/// One point of a billing chart bucket. The value keeps its exact
/// numeric token.
pub struct ChartPoint {
    pub id: String,
    pub name: String,
    pub value: String,
}

/// One time bucket of a billing chart.
pub struct ChartBucket {
    pub timestamp: u64,
    pub values: Vec<ChartPoint>,
}

/// A billing chart: a sequence of time buckets.
pub struct ChartSeries {
    pub data: Vec<ChartBucket>,
}

/// One itemized cost dimension. The cost keeps its exact numeric
/// token; its wire field is named `type`.
pub struct CostItem {
    pub kind: String,
    pub cost: String,
}

/// The billing period of one deployment, as two timestamp strings
/// taken from the wire.
pub struct Period {
    pub start: String,
    pub end: String,
}

/// One deployment's monthly costs, with exact numeric tokens. On the
/// wire the total and the dimensions sit in a nested `costs` object.
pub struct Deployment {
    pub id: String,
    pub name: String,
    pub costs_total: String,
    pub hourly_rate: String,
    pub dimensions: Vec<CostItem>,
    pub period: Period,
}

/// The monthly deployment costs document.
pub struct DeploymentCosts {
    pub total_cost: String,
    pub deployments: Vec<Deployment>,
}

pub open spec fn strings_model(ss: Seq<String>) -> Seq<Seq<char>> {
    Seq::new(
        ss.len(),
        |k: int|
            if 0 <= k && k < ss.len() {
                ss[k]@
            } else {
                Seq::empty()
            },
    )
}

pub open spec fn scope_model(s: Scope) -> (Seq<char>, Seq<char>) {
    (s.name@, s.kind@)
}

pub open spec fn scopes_model(ss: Seq<Scope>) -> Seq<(Seq<char>, Seq<char>)> {
    Seq::new(
        ss.len(),
        |k: int|
            if 0 <= k && k < ss.len() {
                scope_model(ss[k])
            } else {
                (Seq::empty(), Seq::empty())
            },
    )
}

pub open spec fn user_model(u: UserEntry) -> (Seq<char>, Seq<(Seq<char>, Seq<char>)>) {
    (u.username@, scopes_model(u.scopes@))
}

pub open spec fn users_model(us: Seq<UserEntry>) -> Seq<(Seq<char>, Seq<(Seq<char>, Seq<char>)>)> {
    Seq::new(
        us.len(),
        |k: int|
            if 0 <= k && k < us.len() {
                user_model(us[k])
            } else {
                (Seq::empty(), Seq::empty())
            },
    )
}

pub open spec fn point_model(pt: ChartPoint) -> (Seq<char>, Seq<char>, Seq<char>) {
    (pt.id@, pt.name@, pt.value@)
}

pub open spec fn points_model(ps: Seq<ChartPoint>) -> Seq<(Seq<char>, Seq<char>, Seq<char>)> {
    Seq::new(
        ps.len(),
        |k: int|
            if 0 <= k && k < ps.len() {
                point_model(ps[k])
            } else {
                (Seq::empty(), Seq::empty(), Seq::empty())
            },
    )
}

pub open spec fn bucket_model(b: ChartBucket) -> (int, Seq<(Seq<char>, Seq<char>, Seq<char>)>) {
    (b.timestamp as int, points_model(b.values@))
}

pub open spec fn buckets_model(bs: Seq<ChartBucket>) -> Seq<
    (int, Seq<(Seq<char>, Seq<char>, Seq<char>)>),
> {
    Seq::new(
        bs.len(),
        |k: int|
            if 0 <= k && k < bs.len() {
                bucket_model(bs[k])
            } else {
                (0, Seq::empty())
            },
    )
}

pub open spec fn item_model(it: CostItem) -> (Seq<char>, Seq<char>) {
    (it.kind@, it.cost@)
}

pub open spec fn items_model(its: Seq<CostItem>) -> Seq<(Seq<char>, Seq<char>)> {
    Seq::new(
        its.len(),
        |k: int|
            if 0 <= k && k < its.len() {
                item_model(its[k])
            } else {
                (Seq::empty(), Seq::empty())
            },
    )
}

pub open spec fn period_model(p: Period) -> (Seq<char>, Seq<char>) {
    (p.start@, p.end@)
}

/// The model of one deployment: its id, its name, its cost and rate
/// tokens, its dimensions and its billing period.
pub type DepModel = (
    Seq<char>,
    Seq<char>,
    Seq<char>,
    Seq<char>,
    Seq<(Seq<char>, Seq<char>)>,
    (Seq<char>, Seq<char>),
);

pub open spec fn deployment_model(d: Deployment) -> DepModel {
    (
        d.id@,
        d.name@,
        d.costs_total@,
        d.hourly_rate@,
        items_model(d.dimensions@),
        period_model(d.period),
    )
}

pub open spec fn deployments_model(ds: Seq<Deployment>) -> Seq<DepModel> {
    Seq::new(
        ds.len(),
        |k: int|
            if 0 <= k && k < ds.len() {
                deployment_model(ds[k])
            } else {
                (
                    Seq::empty(),
                    Seq::empty(),
                    Seq::empty(),
                    Seq::empty(),
                    Seq::empty(),
                    (Seq::empty(), Seq::empty()),
                )
            },
    )
}

pub open spec fn costs_model(c: DeploymentCosts) -> (Seq<char>, Seq<DepModel>) {
    (c.total_cost@, deployments_model(c.deployments@))
}

/// The model of one decoded cluster object: its name.
pub open spec fn dec_cluster(v: JsonV) -> Option<Seq<char>> {
    match v {
        JsonV::Obj(ms) => match obj_get(ms, "name"@, 0) {
            Some(nv) => dec_str(nv),
            None => None,
        },
        _ => None,
    }
}

pub open spec fn dec_clusters_from(es: Seq<JsonV>, k: int) -> Option<Seq<Seq<char>>>
    decreases es.len() - k,
{
    if !(0 <= k && k <= es.len()) {
        None
    } else if k == es.len() {
        Some(Seq::empty())
    } else {
        match (dec_cluster(es[k]), dec_clusters_from(es, k + 1)) {
            (Some(c), Some(rest)) => Some(seq![c] + rest),
            _ => None,
        }
    }
}

/// The model of a decoded cluster listing document.
pub open spec fn dec_cluster_listing(v: JsonV) -> Option<Seq<Seq<char>>> {
    match v {
        JsonV::Obj(ms) => match obj_get(ms, "results"@, 0) {
            Some(JsonV::Arr(es)) => dec_clusters_from(es, 0),
            _ => None,
        },
        _ => None,
    }
}

/// The model of one decoded scope object.
pub open spec fn dec_scope(v: JsonV) -> Option<(Seq<char>, Seq<char>)> {
    match v {
        JsonV::Obj(ms) => match (obj_get(ms, "name"@, 0), obj_get(ms, "type"@, 0)) {
            (Some(nv), Some(tv)) => match (dec_str(nv), dec_str(tv)) {
                (Some(n), Some(t)) => Some((n, t)),
                _ => None,
            },
            _ => None,
        },
        _ => None,
    }
}

pub open spec fn dec_scopes_from(es: Seq<JsonV>, k: int) -> Option<Seq<(Seq<char>, Seq<char>)>>
    decreases es.len() - k,
{
    if !(0 <= k && k <= es.len()) {
        None
    } else if k == es.len() {
        Some(Seq::empty())
    } else {
        match (dec_scope(es[k]), dec_scopes_from(es, k + 1)) {
            (Some(sc), Some(rest)) => Some(seq![sc] + rest),
            _ => None,
        }
    }
}

/// The model of one decoded user object.
pub open spec fn dec_user(v: JsonV) -> Option<(Seq<char>, Seq<(Seq<char>, Seq<char>)>)> {
    match v {
        JsonV::Obj(ms) => match (obj_get(ms, "username"@, 0), obj_get(ms, "scopes"@, 0)) {
            (Some(uv), Some(sv)) => match (dec_str(uv), sv) {
                (Some(u), JsonV::Arr(es)) => match dec_scopes_from(es, 0) {
                    Some(scs) => Some((u, scs)),
                    None => None,
                },
                _ => None,
            },
            _ => None,
        },
        _ => None,
    }
}

pub open spec fn dec_users_from(es: Seq<JsonV>, k: int) -> Option<
    Seq<(Seq<char>, Seq<(Seq<char>, Seq<char>)>)>,
>
    decreases es.len() - k,
{
    if !(0 <= k && k <= es.len()) {
        None
    } else if k == es.len() {
        Some(Seq::empty())
    } else {
        match (dec_user(es[k]), dec_users_from(es, k + 1)) {
            (Some(u), Some(rest)) => Some(seq![u] + rest),
            _ => None,
        }
    }
}

/// The model of a decoded user listing document.
pub open spec fn dec_user_listing(v: JsonV) -> Option<
    Seq<(Seq<char>, Seq<(Seq<char>, Seq<char>)>)>,
> {
    match v {
        JsonV::Obj(ms) => match obj_get(ms, "results"@, 0) {
            Some(JsonV::Arr(es)) => dec_users_from(es, 0),
            _ => None,
        },
        _ => None,
    }
}

/// The model of a decoded change-status document.
pub open spec fn dec_change_status(v: JsonV) -> Option<Seq<char>> {
    match v {
        JsonV::Obj(ms) => match obj_get(ms, "changeStatus"@, 0) {
            Some(sv) => dec_str(sv),
            None => None,
        },
        _ => None,
    }
}

/// The model of one decoded chart point.
pub open spec fn dec_point(v: JsonV) -> Option<(Seq<char>, Seq<char>, Seq<char>)> {
    match v {
        JsonV::Obj(ms) => match (
            obj_get(ms, "id"@, 0),
            obj_get(ms, "name"@, 0),
            obj_get(ms, "value"@, 0),
        ) {
            (Some(iv), Some(nv), Some(vv)) => match (dec_str(iv), dec_str(nv), dec_num(vv)) {
                (Some(i), Some(n), Some(t)) => Some((i, n, t)),
                _ => None,
            },
            _ => None,
        },
        _ => None,
    }
}

pub open spec fn dec_points_from(es: Seq<JsonV>, k: int) -> Option<
    Seq<(Seq<char>, Seq<char>, Seq<char>)>,
>
    decreases es.len() - k,
{
    if !(0 <= k && k <= es.len()) {
        None
    } else if k == es.len() {
        Some(Seq::empty())
    } else {
        match (dec_point(es[k]), dec_points_from(es, k + 1)) {
            (Some(x), Some(rest)) => Some(seq![x] + rest),
            _ => None,
        }
    }
}

/// The model of one decoded chart bucket.
pub open spec fn dec_bucket(v: JsonV) -> Option<(int, Seq<(Seq<char>, Seq<char>, Seq<char>)>)> {
    match v {
        JsonV::Obj(ms) => match (obj_get(ms, "timestamp"@, 0), obj_get(ms, "values"@, 0)) {
            (Some(tv), Some(vv)) => match (dec_uint(tv), vv) {
                (Some(ts), JsonV::Arr(es)) => match dec_points_from(es, 0) {
                    Some(ps) => Some((ts, ps)),
                    None => None,
                },
                _ => None,
            },
            _ => None,
        },
        _ => None,
    }
}

pub open spec fn dec_buckets_from(es: Seq<JsonV>, k: int) -> Option<
    Seq<(int, Seq<(Seq<char>, Seq<char>, Seq<char>)>)>,
>
    decreases es.len() - k,
{
    if !(0 <= k && k <= es.len()) {
        None
    } else if k == es.len() {
        Some(Seq::empty())
    } else {
        match (dec_bucket(es[k]), dec_buckets_from(es, k + 1)) {
            (Some(b), Some(rest)) => Some(seq![b] + rest),
            _ => None,
        }
    }
}

/// The model of a decoded chart series document.
pub open spec fn dec_chart_series(v: JsonV) -> Option<
    Seq<(int, Seq<(Seq<char>, Seq<char>, Seq<char>)>)>,
> {
    match v {
        JsonV::Obj(ms) => match obj_get(ms, "data"@, 0) {
            Some(JsonV::Arr(es)) => dec_buckets_from(es, 0),
            _ => None,
        },
        _ => None,
    }
}

/// The model of one decoded cost dimension.
pub open spec fn dec_item(v: JsonV) -> Option<(Seq<char>, Seq<char>)> {
    match v {
        JsonV::Obj(ms) => match (obj_get(ms, "type"@, 0), obj_get(ms, "cost"@, 0)) {
            (Some(tv), Some(cv)) => match (dec_str(tv), dec_num(cv)) {
                (Some(t), Some(c)) => Some((t, c)),
                _ => None,
            },
            _ => None,
        },
        _ => None,
    }
}

pub open spec fn dec_items_from(es: Seq<JsonV>, k: int) -> Option<Seq<(Seq<char>, Seq<char>)>>
    decreases es.len() - k,
{
    if !(0 <= k && k <= es.len()) {
        None
    } else if k == es.len() {
        Some(Seq::empty())
    } else {
        match (dec_item(es[k]), dec_items_from(es, k + 1)) {
            (Some(x), Some(rest)) => Some(seq![x] + rest),
            _ => None,
        }
    }
}

/// The model of one decoded billing period object.
pub open spec fn dec_period(v: JsonV) -> Option<(Seq<char>, Seq<char>)> {
    match v {
        JsonV::Obj(ms) => match (obj_get(ms, "start"@, 0), obj_get(ms, "end"@, 0)) {
            (Some(sv), Some(ev)) => match (dec_str(sv), dec_str(ev)) {
                (Some(a), Some(b)) => Some((a, b)),
                _ => None,
            },
            _ => None,
        },
        _ => None,
    }
}

/// The model of one decoded nested `costs` object: the total token
/// and the dimensions.
pub open spec fn dec_costs_obj(v: JsonV) -> Option<(Seq<char>, Seq<(Seq<char>, Seq<char>)>)> {
    match v {
        JsonV::Obj(ms) => match (obj_get(ms, "total"@, 0), obj_get(ms, "dimensions"@, 0)) {
            (Some(tv), Some(dv)) => match (dec_num(tv), dv) {
                (Some(t), JsonV::Arr(es)) => match dec_items_from(es, 0) {
                    Some(its) => Some((t, its)),
                    None => None,
                },
                _ => None,
            },
            _ => None,
        },
        _ => None,
    }
}

/// The model of one decoded deployment object.
pub open spec fn dec_deployment(v: JsonV) -> Option<DepModel> {
    match v {
        JsonV::Obj(ms) => match (
            obj_get(ms, "deployment_id"@, 0),
            obj_get(ms, "deployment_name"@, 0),
            obj_get(ms, "costs"@, 0),
            obj_get(ms, "hourly_rate"@, 0),
            obj_get(ms, "period"@, 0),
        ) {
            (Some(iv), Some(nv), Some(cv), Some(hv), Some(pv)) => match (
                dec_str(iv),
                dec_str(nv),
                dec_costs_obj(cv),
                dec_num(hv),
                dec_period(pv),
            ) {
                (Some(i), Some(n), Some(co), Some(h), Some(p)) => Some((i, n, co.0, h, co.1, p)),
                _ => None,
            },
            _ => None,
        },
        _ => None,
    }
}

pub open spec fn dec_deployments_from(es: Seq<JsonV>, k: int) -> Option<Seq<DepModel>>
    decreases es.len() - k,
{
    if !(0 <= k && k <= es.len()) {
        None
    } else if k == es.len() {
        Some(Seq::empty())
    } else {
        match (dec_deployment(es[k]), dec_deployments_from(es, k + 1)) {
            (Some(d), Some(rest)) => Some(seq![d] + rest),
            _ => None,
        }
    }
}

/// The model of a decoded deployment-costs document.
pub open spec fn dec_deployment_costs(v: JsonV) -> Option<(Seq<char>, Seq<DepModel>)> {
    match v {
        JsonV::Obj(ms) => match (obj_get(ms, "total_cost"@, 0), obj_get(ms, "deployments"@, 0)) {
            (Some(tv), Some(dv)) => match (dec_num(tv), dv) {
                (Some(t), JsonV::Arr(es)) => match dec_deployments_from(es, 0) {
                    Some(ds) => Some((t, ds)),
                    None => None,
                },
                _ => None,
            },
            _ => None,
        },
        _ => None,
    }
}


/// The token of a JSON number value, kept exactly.
fn dec_num_e(j: &Json) -> (r: Result<String, FetchError>)
    ensures
        r matches Ok(s) ==> dec_num(jv(*j)) == Some(s@),
        r matches Err(e) ==> dec_num(jv(*j)) is None && e is Malformed,
{
    match j {
        Json::Num(t) => Ok(t.clone()),
        _ => Err(FetchError::Malformed),
    }
}

/// One decoded cluster object.
fn dec_cluster_e(j: &Json) -> (r: Result<String, FetchError>)
    ensures
        r matches Ok(n) ==> dec_cluster(jv(*j)) == Some(n@),
        r matches Err(e) ==> dec_cluster(jv(*j)) is None && e is Malformed,
{
    let ms = match j {
        Json::Obj(ms) => ms,
        _ => {
            return Err(FetchError::Malformed);
        },
    };
    let kname = String::from_str("name");
    let nv = match obj_get_e(ms, &kname, 0) {
        Some(v) => v,
        None => {
            return Err(FetchError::Malformed);
        },
    };
    dec_str_e(nv)
}

/// A decoded cluster listing document.
#[verifier::loop_isolation(false)]
pub fn decode_cluster_listing(body: &str) -> (r: Result<ClusterListing, FetchError>)
    ensures
        r matches Ok(c) ==> ({
            &&& parse_doc(body@) matches Some(d)
            &&& dec_cluster_listing(d) == Some(strings_model(c.results@))
        }),
        r matches Err(e) ==> e is Malformed && (match parse_doc(body@) {
            Some(d) => dec_cluster_listing(d) is None,
            None => true,
        }),
{
    let j = match parse_json(body) {
        Some(j) => j,
        None => {
            return Err(FetchError::Malformed);
        },
    };
    let ms = match &j {
        Json::Obj(ms) => ms,
        _ => {
            return Err(FetchError::Malformed);
        },
    };
    let kresults = String::from_str("results");
    let rv = match obj_get_e(ms, &kresults, 0) {
        Some(v) => v,
        None => {
            return Err(FetchError::Malformed);
        },
    };
    let es = match rv {
        Json::Arr(es) => es,
        _ => {
            return Err(FetchError::Malformed);
        },
    };
    let mut results: Vec<String> = Vec::new();
    let mut k: usize = 0;
    proof {
        assert(strings_model(results@) =~= Seq::<Seq<char>>::empty());
    }
    while k < es.len()
        invariant
            k <= es@.len(),
            ({
                let full = dec_clusters_from(jvs(es@), 0);
                match dec_clusters_from(jvs(es@), k as int) {
                    Some(rest) => full == Some(strings_model(results@) + rest),
                    None => full is None,
                }
            }),
        decreases es@.len() - k,
    {
        proof {
            assert(jvs(es@)[k as int] == jv(es@[k as int]));
        }
        let n = match dec_cluster_e(&es[k]) {
            Ok(n) => n,
            Err(e) => {
                return Err(e);
            },
        };
        let ghost r0 = results@;
        let ghost n0 = n@;
        results.push(n);
        proof {
            match dec_clusters_from(jvs(es@), k + 1 as int) {
                Some(rest) => {
                    assert(strings_model(results@) =~= strings_model(r0).push(n0));
                    assert(strings_model(r0) + (seq![n0] + rest) =~= strings_model(results@)
                        + rest);
                },
                None => {},
            }
        }
        k = k + 1;
    }
    proof {
        assert(strings_model(results@) + Seq::<Seq<char>>::empty() =~= strings_model(results@));
    }
    Ok(ClusterListing { results })
}

/// One decoded scope object.
fn dec_scope_e(j: &Json) -> (r: Result<Scope, FetchError>)
    ensures
        r matches Ok(sc) ==> dec_scope(jv(*j)) == Some(scope_model(sc)),
        r matches Err(e) ==> dec_scope(jv(*j)) is None && e is Malformed,
{
    let ms = match j {
        Json::Obj(ms) => ms,
        _ => {
            return Err(FetchError::Malformed);
        },
    };
    let kname = String::from_str("name");
    let ktype = String::from_str("type");
    let nv = match obj_get_e(ms, &kname, 0) {
        Some(v) => v,
        None => {
            return Err(FetchError::Malformed);
        },
    };
    let tv = match obj_get_e(ms, &ktype, 0) {
        Some(v) => v,
        None => {
            return Err(FetchError::Malformed);
        },
    };
    let name = match dec_str_e(nv) {
        Ok(x) => x,
        Err(e) => {
            return Err(e);
        },
    };
    let kind = match dec_str_e(tv) {
        Ok(x) => x,
        Err(e) => {
            return Err(e);
        },
    };
    Ok(Scope { name, kind })
}

/// One decoded user object.
#[verifier::loop_isolation(false)]
fn dec_user_e(j: &Json) -> (r: Result<UserEntry, FetchError>)
    ensures
        r matches Ok(u) ==> dec_user(jv(*j)) == Some(user_model(u)),
        r matches Err(e) ==> dec_user(jv(*j)) is None && e is Malformed,
{
    let ms = match j {
        Json::Obj(ms) => ms,
        _ => {
            return Err(FetchError::Malformed);
        },
    };
    let kuser = String::from_str("username");
    let kscopes = String::from_str("scopes");
    let uv = match obj_get_e(ms, &kuser, 0) {
        Some(v) => v,
        None => {
            return Err(FetchError::Malformed);
        },
    };
    let sv = match obj_get_e(ms, &kscopes, 0) {
        Some(v) => v,
        None => {
            return Err(FetchError::Malformed);
        },
    };
    let username = match dec_str_e(uv) {
        Ok(x) => x,
        Err(e) => {
            return Err(e);
        },
    };
    let es = match sv {
        Json::Arr(es) => es,
        _ => {
            return Err(FetchError::Malformed);
        },
    };
    let mut scopes: Vec<Scope> = Vec::new();
    let mut k: usize = 0;
    proof {
        assert(scopes_model(scopes@) =~= Seq::<(Seq<char>, Seq<char>)>::empty());
    }
    while k < es.len()
        invariant
            k <= es@.len(),
            ({
                let full = dec_scopes_from(jvs(es@), 0);
                match dec_scopes_from(jvs(es@), k as int) {
                    Some(rest) => full == Some(scopes_model(scopes@) + rest),
                    None => full is None,
                }
            }),
        decreases es@.len() - k,
    {
        proof {
            assert(jvs(es@)[k as int] == jv(es@[k as int]));
        }
        let sc = match dec_scope_e(&es[k]) {
            Ok(x) => x,
            Err(e) => {
                return Err(e);
            },
        };
        let ghost r0 = scopes@;
        let ghost s0 = sc;
        scopes.push(sc);
        proof {
            match dec_scopes_from(jvs(es@), k + 1 as int) {
                Some(rest) => {
                    assert(scopes_model(scopes@) =~= scopes_model(r0).push(scope_model(s0)));
                    assert(scopes_model(r0) + (seq![scope_model(s0)] + rest) =~= scopes_model(
                        scopes@,
                    ) + rest);
                },
                None => {},
            }
        }
        k = k + 1;
    }
    proof {
        assert(scopes_model(scopes@) + Seq::<(Seq<char>, Seq<char>)>::empty() =~= scopes_model(
            scopes@,
        ));
    }
    Ok(UserEntry { username, scopes })
}

/// A decoded user listing document.
#[verifier::loop_isolation(false)]
pub fn decode_user_listing(body: &str) -> (r: Result<UserListing, FetchError>)
    ensures
        r matches Ok(u) ==> ({
            &&& parse_doc(body@) matches Some(d)
            &&& dec_user_listing(d) == Some(users_model(u.results@))
        }),
        r matches Err(e) ==> e is Malformed && (match parse_doc(body@) {
            Some(d) => dec_user_listing(d) is None,
            None => true,
        }),
{
    let j = match parse_json(body) {
        Some(j) => j,
        None => {
            return Err(FetchError::Malformed);
        },
    };
    let ms = match &j {
        Json::Obj(ms) => ms,
        _ => {
            return Err(FetchError::Malformed);
        },
    };
    let kresults = String::from_str("results");
    let rv = match obj_get_e(ms, &kresults, 0) {
        Some(v) => v,
        None => {
            return Err(FetchError::Malformed);
        },
    };
    let es = match rv {
        Json::Arr(es) => es,
        _ => {
            return Err(FetchError::Malformed);
        },
    };
    let mut results: Vec<UserEntry> = Vec::new();
    let mut k: usize = 0;
    proof {
        assert(users_model(results@) =~= Seq::<(Seq<char>, Seq<(Seq<char>, Seq<char>)>)>::empty());
    }
    while k < es.len()
        invariant
            k <= es@.len(),
            ({
                let full = dec_users_from(jvs(es@), 0);
                match dec_users_from(jvs(es@), k as int) {
                    Some(rest) => full == Some(users_model(results@) + rest),
                    None => full is None,
                }
            }),
        decreases es@.len() - k,
    {
        proof {
            assert(jvs(es@)[k as int] == jv(es@[k as int]));
        }
        let u = match dec_user_e(&es[k]) {
            Ok(x) => x,
            Err(e) => {
                return Err(e);
            },
        };
        let ghost r0 = results@;
        let ghost u0 = u;
        results.push(u);
        proof {
            match dec_users_from(jvs(es@), k + 1 as int) {
                Some(rest) => {
                    assert(users_model(results@) =~= users_model(r0).push(user_model(u0)));
                    assert(users_model(r0) + (seq![user_model(u0)] + rest) =~= users_model(
                        results@,
                    ) + rest);
                },
                None => {},
            }
        }
        k = k + 1;
    }
    proof {
        assert(users_model(results@) + Seq::<(Seq<char>, Seq<(Seq<char>, Seq<char>)>)>::empty()
            =~= users_model(results@));
    }
    Ok(UserListing { results })
}

/// A decoded change-status document.
pub fn decode_change_status(body: &str) -> (r: Result<ChangeStatus, FetchError>)
    ensures
        r matches Ok(c) ==> ({
            &&& parse_doc(body@) matches Some(d)
            &&& dec_change_status(d) == Some(c.change_status@)
        }),
        r matches Err(e) ==> e is Malformed && (match parse_doc(body@) {
            Some(d) => dec_change_status(d) is None,
            None => true,
        }),
{
    let j = match parse_json(body) {
        Some(j) => j,
        None => {
            return Err(FetchError::Malformed);
        },
    };
    let ms = match &j {
        Json::Obj(ms) => ms,
        _ => {
            return Err(FetchError::Malformed);
        },
    };
    let kstatus = String::from_str("changeStatus");
    let sv = match obj_get_e(ms, &kstatus, 0) {
        Some(v) => v,
        None => {
            return Err(FetchError::Malformed);
        },
    };
    match dec_str_e(sv) {
        Ok(x) => Ok(ChangeStatus { change_status: x }),
        Err(e) => Err(e),
    }
}

/// One decoded chart point.
fn dec_point_e(j: &Json) -> (r: Result<ChartPoint, FetchError>)
    ensures
        r matches Ok(x) ==> dec_point(jv(*j)) == Some(point_model(x)),
        r matches Err(e) ==> dec_point(jv(*j)) is None && e is Malformed,
{
    let ms = match j {
        Json::Obj(ms) => ms,
        _ => {
            return Err(FetchError::Malformed);
        },
    };
    let kid = String::from_str("id");
    let kname = String::from_str("name");
    let kvalue = String::from_str("value");
    let iv = match obj_get_e(ms, &kid, 0) {
        Some(v) => v,
        None => {
            return Err(FetchError::Malformed);
        },
    };
    let nv = match obj_get_e(ms, &kname, 0) {
        Some(v) => v,
        None => {
            return Err(FetchError::Malformed);
        },
    };
    let vv = match obj_get_e(ms, &kvalue, 0) {
        Some(v) => v,
        None => {
            return Err(FetchError::Malformed);
        },
    };
    let id = match dec_str_e(iv) {
        Ok(x) => x,
        Err(e) => {
            return Err(e);
        },
    };
    let name = match dec_str_e(nv) {
        Ok(x) => x,
        Err(e) => {
            return Err(e);
        },
    };
    let value = match dec_num_e(vv) {
        Ok(x) => x,
        Err(e) => {
            return Err(e);
        },
    };
    Ok(ChartPoint { id, name, value })
}

/// One decoded chart bucket.
#[verifier::loop_isolation(false)]
fn dec_bucket_e(j: &Json) -> (r: Result<ChartBucket, FetchError>)
    ensures
        r matches Ok(b) ==> dec_bucket(jv(*j)) == Some(bucket_model(b)),
        r matches Err(e) ==> dec_bucket(jv(*j)) is None && e is Malformed,
{
    let ms = match j {
        Json::Obj(ms) => ms,
        _ => {
            return Err(FetchError::Malformed);
        },
    };
    let kts = String::from_str("timestamp");
    let kvalues = String::from_str("values");
    let tv = match obj_get_e(ms, &kts, 0) {
        Some(v) => v,
        None => {
            return Err(FetchError::Malformed);
        },
    };
    let vv = match obj_get_e(ms, &kvalues, 0) {
        Some(v) => v,
        None => {
            return Err(FetchError::Malformed);
        },
    };
    let timestamp = match dec_uint_e(tv) {
        Ok(x) => x,
        Err(e) => {
            return Err(e);
        },
    };
    let es = match vv {
        Json::Arr(es) => es,
        _ => {
            return Err(FetchError::Malformed);
        },
    };
    let mut values: Vec<ChartPoint> = Vec::new();
    let mut k: usize = 0;
    proof {
        assert(points_model(values@) =~= Seq::<(Seq<char>, Seq<char>, Seq<char>)>::empty());
    }
    while k < es.len()
        invariant
            k <= es@.len(),
            ({
                let full = dec_points_from(jvs(es@), 0);
                match dec_points_from(jvs(es@), k as int) {
                    Some(rest) => full == Some(points_model(values@) + rest),
                    None => full is None,
                }
            }),
        decreases es@.len() - k,
    {
        proof {
            assert(jvs(es@)[k as int] == jv(es@[k as int]));
        }
        let x = match dec_point_e(&es[k]) {
            Ok(x) => x,
            Err(e) => {
                return Err(e);
            },
        };
        let ghost r0 = values@;
        let ghost x0 = x;
        values.push(x);
        proof {
            match dec_points_from(jvs(es@), k + 1 as int) {
                Some(rest) => {
                    assert(points_model(values@) =~= points_model(r0).push(point_model(x0)));
                    assert(points_model(r0) + (seq![point_model(x0)] + rest) =~= points_model(
                        values@,
                    ) + rest);
                },
                None => {},
            }
        }
        k = k + 1;
    }
    proof {
        assert(points_model(values@) + Seq::<(Seq<char>, Seq<char>, Seq<char>)>::empty()
            =~= points_model(values@));
    }
    Ok(ChartBucket { timestamp, values })
}

/// A decoded chart series document.
#[verifier::loop_isolation(false)]
pub fn decode_chart_series(body: &str) -> (r: Result<ChartSeries, FetchError>)
    ensures
        r matches Ok(c) ==> ({
            &&& parse_doc(body@) matches Some(d)
            &&& dec_chart_series(d) == Some(buckets_model(c.data@))
        }),
        r matches Err(e) ==> e is Malformed && (match parse_doc(body@) {
            Some(d) => dec_chart_series(d) is None,
            None => true,
        }),
{
    let j = match parse_json(body) {
        Some(j) => j,
        None => {
            return Err(FetchError::Malformed);
        },
    };
    let ms = match &j {
        Json::Obj(ms) => ms,
        _ => {
            return Err(FetchError::Malformed);
        },
    };
    let kdata = String::from_str("data");
    let rv = match obj_get_e(ms, &kdata, 0) {
        Some(v) => v,
        None => {
            return Err(FetchError::Malformed);
        },
    };
    let es = match rv {
        Json::Arr(es) => es,
        _ => {
            return Err(FetchError::Malformed);
        },
    };
    let mut data: Vec<ChartBucket> = Vec::new();
    let mut k: usize = 0;
    proof {
        assert(buckets_model(data@) =~= Seq::<
            (int, Seq<(Seq<char>, Seq<char>, Seq<char>)>),
        >::empty());
    }
    while k < es.len()
        invariant
            k <= es@.len(),
            ({
                let full = dec_buckets_from(jvs(es@), 0);
                match dec_buckets_from(jvs(es@), k as int) {
                    Some(rest) => full == Some(buckets_model(data@) + rest),
                    None => full is None,
                }
            }),
        decreases es@.len() - k,
    {
        proof {
            assert(jvs(es@)[k as int] == jv(es@[k as int]));
        }
        let b = match dec_bucket_e(&es[k]) {
            Ok(x) => x,
            Err(e) => {
                return Err(e);
            },
        };
        let ghost r0 = data@;
        let ghost b0 = b;
        data.push(b);
        proof {
            match dec_buckets_from(jvs(es@), k + 1 as int) {
                Some(rest) => {
                    assert(buckets_model(data@) =~= buckets_model(r0).push(bucket_model(b0)));
                    assert(buckets_model(r0) + (seq![bucket_model(b0)] + rest) =~= buckets_model(
                        data@,
                    ) + rest);
                },
                None => {},
            }
        }
        k = k + 1;
    }
    proof {
        assert(buckets_model(data@) + Seq::<
            (int, Seq<(Seq<char>, Seq<char>, Seq<char>)>),
        >::empty() =~= buckets_model(data@));
    }
    Ok(ChartSeries { data })
}

/// One decoded cost dimension.
fn dec_item_e(j: &Json) -> (r: Result<CostItem, FetchError>)
    ensures
        r matches Ok(x) ==> dec_item(jv(*j)) == Some(item_model(x)),
        r matches Err(e) ==> dec_item(jv(*j)) is None && e is Malformed,
{
    let ms = match j {
        Json::Obj(ms) => ms,
        _ => {
            return Err(FetchError::Malformed);
        },
    };
    let ktype = String::from_str("type");
    let kcost = String::from_str("cost");
    let tv = match obj_get_e(ms, &ktype, 0) {
        Some(v) => v,
        None => {
            return Err(FetchError::Malformed);
        },
    };
    let cv = match obj_get_e(ms, &kcost, 0) {
        Some(v) => v,
        None => {
            return Err(FetchError::Malformed);
        },
    };
    let kind = match dec_str_e(tv) {
        Ok(x) => x,
        Err(e) => {
            return Err(e);
        },
    };
    let cost = match dec_num_e(cv) {
        Ok(x) => x,
        Err(e) => {
            return Err(e);
        },
    };
    Ok(CostItem { kind, cost })
}

/// One decoded billing period object.
fn dec_period_e(j: &Json) -> (r: Result<Period, FetchError>)
    ensures
        r matches Ok(p) ==> dec_period(jv(*j)) == Some(period_model(p)),
        r matches Err(e) ==> dec_period(jv(*j)) is None && e is Malformed,
{
    let ms = match j {
        Json::Obj(ms) => ms,
        _ => {
            return Err(FetchError::Malformed);
        },
    };
    let kstart = String::from_str("start");
    let kend = String::from_str("end");
    let sv = match obj_get_e(ms, &kstart, 0) {
        Some(v) => v,
        None => {
            return Err(FetchError::Malformed);
        },
    };
    let ev = match obj_get_e(ms, &kend, 0) {
        Some(v) => v,
        None => {
            return Err(FetchError::Malformed);
        },
    };
    let start = match dec_str_e(sv) {
        Ok(x) => x,
        Err(e) => {
            return Err(e);
        },
    };
    let end = match dec_str_e(ev) {
        Ok(x) => x,
        Err(e) => {
            return Err(e);
        },
    };
    Ok(Period { start, end })
}

/// One decoded nested `costs` object: the total token and the
/// dimensions.
#[verifier::loop_isolation(false)]
fn dec_costs_obj_e(j: &Json) -> (r: Result<(String, Vec<CostItem>), FetchError>)
    ensures
        r matches Ok(x) ==> dec_costs_obj(jv(*j)) == Some((x.0@, items_model(x.1@))),
        r matches Err(e) ==> dec_costs_obj(jv(*j)) is None && e is Malformed,
{
    let ms = match j {
        Json::Obj(ms) => ms,
        _ => {
            return Err(FetchError::Malformed);
        },
    };
    let ktotal = String::from_str("total");
    let kdims = String::from_str("dimensions");
    let tv = match obj_get_e(ms, &ktotal, 0) {
        Some(v) => v,
        None => {
            return Err(FetchError::Malformed);
        },
    };
    let dv = match obj_get_e(ms, &kdims, 0) {
        Some(v) => v,
        None => {
            return Err(FetchError::Malformed);
        },
    };
    let total = match dec_num_e(tv) {
        Ok(x) => x,
        Err(e) => {
            return Err(e);
        },
    };
    let es = match dv {
        Json::Arr(es) => es,
        _ => {
            return Err(FetchError::Malformed);
        },
    };
    let mut dimensions: Vec<CostItem> = Vec::new();
    let mut k: usize = 0;
    proof {
        assert(items_model(dimensions@) =~= Seq::<(Seq<char>, Seq<char>)>::empty());
    }
    while k < es.len()
        invariant
            k <= es@.len(),
            ({
                let full = dec_items_from(jvs(es@), 0);
                match dec_items_from(jvs(es@), k as int) {
                    Some(rest) => full == Some(items_model(dimensions@) + rest),
                    None => full is None,
                }
            }),
        decreases es@.len() - k,
    {
        proof {
            assert(jvs(es@)[k as int] == jv(es@[k as int]));
        }
        let x = match dec_item_e(&es[k]) {
            Ok(x) => x,
            Err(e) => {
                return Err(e);
            },
        };
        let ghost r0 = dimensions@;
        let ghost x0 = x;
        dimensions.push(x);
        proof {
            match dec_items_from(jvs(es@), k + 1 as int) {
                Some(rest) => {
                    assert(items_model(dimensions@) =~= items_model(r0).push(item_model(x0)));
                    assert(items_model(r0) + (seq![item_model(x0)] + rest) =~= items_model(
                        dimensions@,
                    ) + rest);
                },
                None => {},
            }
        }
        k = k + 1;
    }
    proof {
        assert(items_model(dimensions@) + Seq::<(Seq<char>, Seq<char>)>::empty() =~= items_model(
            dimensions@,
        ));
    }
    Ok((total, dimensions))
}

/// One decoded deployment object.
fn dec_deployment_e(j: &Json) -> (r: Result<Deployment, FetchError>)
    ensures
        r matches Ok(d) ==> dec_deployment(jv(*j)) == Some(deployment_model(d)),
        r matches Err(e) ==> dec_deployment(jv(*j)) is None && e is Malformed,
{
    let ms = match j {
        Json::Obj(ms) => ms,
        _ => {
            return Err(FetchError::Malformed);
        },
    };
    let kid = String::from_str("deployment_id");
    let kname = String::from_str("deployment_name");
    let kcosts = String::from_str("costs");
    let khr = String::from_str("hourly_rate");
    let kperiod = String::from_str("period");
    let iv = match obj_get_e(ms, &kid, 0) {
        Some(v) => v,
        None => {
            return Err(FetchError::Malformed);
        },
    };
    let nv = match obj_get_e(ms, &kname, 0) {
        Some(v) => v,
        None => {
            return Err(FetchError::Malformed);
        },
    };
    let cv = match obj_get_e(ms, &kcosts, 0) {
        Some(v) => v,
        None => {
            return Err(FetchError::Malformed);
        },
    };
    let hv = match obj_get_e(ms, &khr, 0) {
        Some(v) => v,
        None => {
            return Err(FetchError::Malformed);
        },
    };
    let pv = match obj_get_e(ms, &kperiod, 0) {
        Some(v) => v,
        None => {
            return Err(FetchError::Malformed);
        },
    };
    let id = match dec_str_e(iv) {
        Ok(x) => x,
        Err(e) => {
            return Err(e);
        },
    };
    let name = match dec_str_e(nv) {
        Ok(x) => x,
        Err(e) => {
            return Err(e);
        },
    };
    let co = match dec_costs_obj_e(cv) {
        Ok(x) => x,
        Err(e) => {
            return Err(e);
        },
    };
    let hourly_rate = match dec_num_e(hv) {
        Ok(x) => x,
        Err(e) => {
            return Err(e);
        },
    };
    let period = match dec_period_e(pv) {
        Ok(x) => x,
        Err(e) => {
            return Err(e);
        },
    };
    let (costs_total, dimensions) = co;
    Ok(Deployment { id, name, costs_total, hourly_rate, dimensions, period })
}

/// A decoded deployment-costs document.
#[verifier::loop_isolation(false)]
pub fn decode_deployment_costs(body: &str) -> (r: Result<DeploymentCosts, FetchError>)
    ensures
        r matches Ok(c) ==> ({
            &&& parse_doc(body@) matches Some(d)
            &&& dec_deployment_costs(d) == Some(costs_model(c))
        }),
        r matches Err(e) ==> e is Malformed && (match parse_doc(body@) {
            Some(d) => dec_deployment_costs(d) is None,
            None => true,
        }),
{
    let j = match parse_json(body) {
        Some(j) => j,
        None => {
            return Err(FetchError::Malformed);
        },
    };
    let ms = match &j {
        Json::Obj(ms) => ms,
        _ => {
            return Err(FetchError::Malformed);
        },
    };
    let ktc = String::from_str("total_cost");
    let kdep = String::from_str("deployments");
    let tv = match obj_get_e(ms, &ktc, 0) {
        Some(v) => v,
        None => {
            return Err(FetchError::Malformed);
        },
    };
    let dv = match obj_get_e(ms, &kdep, 0) {
        Some(v) => v,
        None => {
            return Err(FetchError::Malformed);
        },
    };
    let total_cost = match dec_num_e(tv) {
        Ok(x) => x,
        Err(e) => {
            return Err(e);
        },
    };
    let es = match dv {
        Json::Arr(es) => es,
        _ => {
            return Err(FetchError::Malformed);
        },
    };
    let mut deployments: Vec<Deployment> = Vec::new();
    let mut k: usize = 0;
    proof {
        assert(deployments_model(deployments@) =~= Seq::<DepModel>::empty());
    }
    while k < es.len()
        invariant
            k <= es@.len(),
            ({
                let full = dec_deployments_from(jvs(es@), 0);
                match dec_deployments_from(jvs(es@), k as int) {
                    Some(rest) => full == Some(deployments_model(deployments@) + rest),
                    None => full is None,
                }
            }),
        decreases es@.len() - k,
    {
        proof {
            assert(jvs(es@)[k as int] == jv(es@[k as int]));
        }
        let d = match dec_deployment_e(&es[k]) {
            Ok(x) => x,
            Err(e) => {
                return Err(e);
            },
        };
        let ghost r0 = deployments@;
        let ghost d0 = d;
        deployments.push(d);
        proof {
            match dec_deployments_from(jvs(es@), k + 1 as int) {
                Some(rest) => {
                    assert(deployments_model(deployments@) =~= deployments_model(r0).push(
                        deployment_model(d0),
                    ));
                    assert(deployments_model(r0) + (seq![deployment_model(d0)] + rest)
                        =~= deployments_model(deployments@) + rest);
                },
                None => {},
            }
        }
        k = k + 1;
    }
    proof {
        assert(deployments_model(deployments@) + Seq::<DepModel>::empty() =~= deployments_model(
            deployments@,
        ));
    }
    Ok(DeploymentCosts { total_cost, deployments })
}


/// The JSON tree of one encoded cost dimension.
pub open spec fn item_json(it: (Seq<char>, Seq<char>)) -> JsonV {
    JsonV::Obj(seq![("type"@, JsonV::Str(it.0)), ("cost"@, JsonV::Num(it.1))])
}

pub open spec fn items_json(its: Seq<(Seq<char>, Seq<char>)>) -> Seq<JsonV> {
    Seq::new(
        its.len(),
        |k: int|
            if 0 <= k && k < its.len() {
                item_json(its[k])
            } else {
                JsonV::Null
            },
    )
}

/// The JSON tree of one encoded nested `costs` object.
pub open spec fn costs_obj_json(total: Seq<char>, its: Seq<(Seq<char>, Seq<char>)>) -> JsonV {
    JsonV::Obj(seq![("total"@, JsonV::Num(total)), ("dimensions"@, JsonV::Arr(items_json(its)))])
}

/// The JSON tree of one encoded billing period.
pub open spec fn period_json(p: (Seq<char>, Seq<char>)) -> JsonV {
    JsonV::Obj(seq![("start"@, JsonV::Str(p.0)), ("end"@, JsonV::Str(p.1))])
}

/// The JSON tree of one encoded deployment.
pub open spec fn deployment_json(d: DepModel) -> JsonV {
    JsonV::Obj(
        seq![
            ("deployment_id"@, JsonV::Str(d.0)),
            ("deployment_name"@, JsonV::Str(d.1)),
            ("costs"@, costs_obj_json(d.2, d.4)),
            ("hourly_rate"@, JsonV::Num(d.3)),
            ("period"@, period_json(d.5)),
        ],
    )
}

pub open spec fn deployments_json(ds: Seq<DepModel>) -> Seq<JsonV> {
    Seq::new(
        ds.len(),
        |k: int|
            if 0 <= k && k < ds.len() {
                deployment_json(ds[k])
            } else {
                JsonV::Null
            },
    )
}

/// The JSON tree of an encoded deployment-costs document.
pub open spec fn costs_json(c: (Seq<char>, Seq<DepModel>)) -> JsonV {
    JsonV::Obj(
        seq![
            ("total_cost"@, JsonV::Num(c.0)),
            ("deployments"@, JsonV::Arr(deployments_json(c.1))),
        ],
    )
}

/// Builds the JSON tree of a deployment-costs document. Numeric
/// fields carry their tokens into the tree unchanged.
#[verifier::loop_isolation(false)]
pub fn costs_to_json(c: &DeploymentCosts) -> (r: Json)
    ensures
        jv(r) == costs_json(costs_model(*c)),
{
    let ghost dsm = deployments_model(c.deployments@);
    let mut deps: Vec<Json> = Vec::new();
    let mut k: usize = 0;
    proof {
        assert(jvs(deps@) =~= deployments_json(dsm).subrange(0, 0));
    }
    while k < c.deployments.len()
        invariant
            k <= c.deployments@.len(),
            jvs(deps@) =~= deployments_json(dsm).subrange(0, k as int),
        decreases c.deployments@.len() - k,
    {
        let d = &c.deployments[k];
        let ghost dm = dsm[k as int];
        proof {
            assert(dm == deployment_model(c.deployments@[k as int]));
        }
        let mut dims: Vec<Json> = Vec::new();
        let mut t: usize = 0;
        proof {
            assert(jvs(dims@) =~= items_json(dm.4).subrange(0, 0));
        }
        while t < d.dimensions.len()
            invariant
                t <= d.dimensions@.len(),
                jvs(dims@) =~= items_json(dm.4).subrange(0, t as int),
            decreases d.dimensions@.len() - t,
        {
            let mut fields: Vec<(String, Json)> = Vec::new();
            fields.push((String::from_str("type"), Json::Str(d.dimensions[t].kind.clone())));
            fields.push((String::from_str("cost"), Json::Num(d.dimensions[t].cost.clone())));
            let it = Json::Obj(fields);
            let ghost dims0 = dims@;
            dims.push(it);
            proof {
                assert(dm.4[t as int] == (d.dimensions@[t as int].kind@, d.dimensions@[
                    t as int].cost@));
                assert(jvm(it->Obj_0@) =~= seq![("type"@, JsonV::Str(dm.4[t as int].0)), ("cost"@,
                    JsonV::Num(dm.4[t as int].1))]);
                assert(jv(it) == item_json(dm.4[t as int]));
                assert(jvs(dims@) =~= jvs(dims0).push(jv(it)));
                assert(items_json(dm.4).subrange(0, t + 1 as int) =~= items_json(dm.4).subrange(
                    0,
                    t as int,
                ).push(items_json(dm.4)[t as int]));
            }
            t = t + 1;
        }
        proof {
            assert(items_json(dm.4).subrange(0, dm.4.len() as int) =~= items_json(dm.4));
            assert(jvs(dims@) =~= items_json(dm.4));
        }
        let mut cfields: Vec<(String, Json)> = Vec::new();
        cfields.push((String::from_str("total"), Json::Num(d.costs_total.clone())));
        cfields.push((String::from_str("dimensions"), Json::Arr(dims)));
        let cj = Json::Obj(cfields);
        proof {
            assert(jvm(cj->Obj_0@) =~= seq![
                ("total"@, JsonV::Num(dm.2)),
                ("dimensions"@, JsonV::Arr(items_json(dm.4))),
            ]);
            assert(jv(cj) == costs_obj_json(dm.2, dm.4));
        }
        let mut pfields: Vec<(String, Json)> = Vec::new();
        pfields.push((String::from_str("start"), Json::Str(d.period.start.clone())));
        pfields.push((String::from_str("end"), Json::Str(d.period.end.clone())));
        let pj = Json::Obj(pfields);
        proof {
            assert(jvm(pj->Obj_0@) =~= seq![
                ("start"@, JsonV::Str(dm.5.0)),
                ("end"@, JsonV::Str(dm.5.1)),
            ]);
            assert(jv(pj) == period_json(dm.5));
        }
        let mut fields: Vec<(String, Json)> = Vec::new();
        fields.push((String::from_str("deployment_id"), Json::Str(d.id.clone())));
        fields.push((String::from_str("deployment_name"), Json::Str(d.name.clone())));
        fields.push((String::from_str("costs"), cj));
        fields.push((String::from_str("hourly_rate"), Json::Num(d.hourly_rate.clone())));
        fields.push((String::from_str("period"), pj));
        let dj = Json::Obj(fields);
        let ghost deps0 = deps@;
        deps.push(dj);
        proof {
            assert(jvm(dj->Obj_0@) =~= seq![
                ("deployment_id"@, JsonV::Str(dm.0)),
                ("deployment_name"@, JsonV::Str(dm.1)),
                ("costs"@, costs_obj_json(dm.2, dm.4)),
                ("hourly_rate"@, JsonV::Num(dm.3)),
                ("period"@, period_json(dm.5)),
            ]);
            assert(jv(dj) == deployment_json(dm));
            assert(jvs(deps@) =~= jvs(deps0).push(jv(dj)));
            assert(deployments_json(dsm).subrange(0, k + 1 as int) =~= deployments_json(
                dsm,
            ).subrange(0, k as int).push(deployments_json(dsm)[k as int]));
        }
        k = k + 1;
    }
    proof {
        assert(deployments_json(dsm).subrange(0, dsm.len() as int) =~= deployments_json(dsm));
        assert(jvs(deps@) =~= deployments_json(dsm));
    }
    let mut fields: Vec<(String, Json)> = Vec::new();
    fields.push((String::from_str("total_cost"), Json::Num(c.total_cost.clone())));
    fields.push((String::from_str("deployments"), Json::Arr(deps)));
    let r = Json::Obj(fields);
    proof {
        assert(jvm(r->Obj_0@) =~= seq![
            ("total_cost"@, JsonV::Num(c.total_cost@)),
            ("deployments"@, JsonV::Arr(deployments_json(dsm))),
        ]);
        assert(jv(r) == costs_json(costs_model(*c)));
    }
    r
}

/// Encodes a deployment-costs document back to JSON text. Every
/// numeric field appears in the output as its exact source token.
pub fn encode_deployment_costs(c: &DeploymentCosts) -> (r: String)
    ensures
        r@ == crate::json::ser(costs_json(costs_model(*c))),
{
    let j = costs_to_json(c);
    crate::json::to_text(&j)
}


proof fn lemma_items_round_trip(its: Seq<(Seq<char>, Seq<char>)>, k: int)
    requires
        0 <= k <= its.len(),
    ensures
        dec_items_from(items_json(its), k) == Some(its.subrange(k, its.len() as int)),
    decreases its.len() - k,
{
    reveal_strlit("type");
    reveal_strlit("cost");
    assert("type"@[0] == 't' && "cost"@[0] == 'c');
    if k == its.len() {
        assert(its.subrange(k, k) =~= Seq::<(Seq<char>, Seq<char>)>::empty());
    } else {
        let ms = seq![("type"@, JsonV::Str(its[k].0)), ("cost"@, JsonV::Num(its[k].1))];
        assert(items_json(its)[k] == item_json(its[k]));
        assert(obj_get(ms, "type"@, 0) == Some(JsonV::Str(its[k].0)));
        assert(obj_get(ms, "cost"@, 0) == obj_get(ms, "cost"@, 1));
        assert(obj_get(ms, "cost"@, 1) == Some(JsonV::Num(its[k].1)));
        assert(dec_item(items_json(its)[k]) == Some(its[k]));
        lemma_items_round_trip(its, k + 1);
        assert(seq![its[k]] + its.subrange(k + 1, its.len() as int) =~= its.subrange(
            k,
            its.len() as int,
        ));
    }
}

proof fn lemma_deployments_round_trip(ds: Seq<DepModel>, k: int)
    requires
        0 <= k <= ds.len(),
    ensures
        dec_deployments_from(deployments_json(ds), k) == Some(ds.subrange(k, ds.len() as int)),
    decreases ds.len() - k,
{
    reveal_strlit("deployment_id");
    reveal_strlit("deployment_name");
    reveal_strlit("costs");
    reveal_strlit("hourly_rate");
    reveal_strlit("period");
    reveal_strlit("total");
    reveal_strlit("dimensions");
    reveal_strlit("start");
    reveal_strlit("end");
    assert("deployment_id"@.len() == 13 && "deployment_name"@.len() == 15 && "costs"@.len() == 5
        && "hourly_rate"@.len() == 11 && "period"@.len() == 6);
    assert("total"@.len() == 5 && "dimensions"@.len() == 10);
    assert("start"@.len() == 5 && "end"@.len() == 3);
    if k == ds.len() {
        assert(ds.subrange(k, k) =~= Seq::<DepModel>::empty());
    } else {
        let d = ds[k];
        let ms = seq![
            ("deployment_id"@, JsonV::Str(d.0)),
            ("deployment_name"@, JsonV::Str(d.1)),
            ("costs"@, costs_obj_json(d.2, d.4)),
            ("hourly_rate"@, JsonV::Num(d.3)),
            ("period"@, period_json(d.5)),
        ];
        assert(deployments_json(ds)[k] == deployment_json(d));
        assert(obj_get(ms, "deployment_id"@, 0) == Some(JsonV::Str(d.0)));
        assert(obj_get(ms, "deployment_name"@, 0) == obj_get(ms, "deployment_name"@, 1));
        assert(obj_get(ms, "deployment_name"@, 1) == Some(JsonV::Str(d.1)));
        assert(obj_get(ms, "costs"@, 0) == obj_get(ms, "costs"@, 1));
        assert(obj_get(ms, "costs"@, 1) == obj_get(ms, "costs"@, 2));
        assert(obj_get(ms, "costs"@, 2) == Some(costs_obj_json(d.2, d.4)));
        assert(obj_get(ms, "hourly_rate"@, 0) == obj_get(ms, "hourly_rate"@, 1));
        assert(obj_get(ms, "hourly_rate"@, 1) == obj_get(ms, "hourly_rate"@, 2));
        assert(obj_get(ms, "hourly_rate"@, 2) == obj_get(ms, "hourly_rate"@, 3));
        assert(obj_get(ms, "hourly_rate"@, 3) == Some(JsonV::Num(d.3)));
        assert(obj_get(ms, "period"@, 0) == obj_get(ms, "period"@, 1));
        assert(obj_get(ms, "period"@, 1) == obj_get(ms, "period"@, 2));
        assert(obj_get(ms, "period"@, 2) == obj_get(ms, "period"@, 3));
        assert(obj_get(ms, "period"@, 3) == obj_get(ms, "period"@, 4));
        assert(obj_get(ms, "period"@, 4) == Some(period_json(d.5)));
        let cms = seq![("total"@, JsonV::Num(d.2)), ("dimensions"@, JsonV::Arr(items_json(d.4)))];
        assert(obj_get(cms, "total"@, 0) == Some(JsonV::Num(d.2)));
        assert(obj_get(cms, "dimensions"@, 0) == obj_get(cms, "dimensions"@, 1));
        assert(obj_get(cms, "dimensions"@, 1) == Some(JsonV::Arr(items_json(d.4))));
        lemma_items_round_trip(d.4, 0);
        assert(d.4.subrange(0, d.4.len() as int) =~= d.4);
        assert(dec_costs_obj(costs_obj_json(d.2, d.4)) == Some((d.2, d.4)));
        let pms = seq![("start"@, JsonV::Str(d.5.0)), ("end"@, JsonV::Str(d.5.1))];
        assert(obj_get(pms, "start"@, 0) == Some(JsonV::Str(d.5.0)));
        assert(obj_get(pms, "end"@, 0) == obj_get(pms, "end"@, 1));
        assert(obj_get(pms, "end"@, 1) == Some(JsonV::Str(d.5.1)));
        assert(dec_period(period_json(d.5)) == Some((d.5.0, d.5.1)));
        assert((d.5.0, d.5.1) == d.5);
        assert((d.0, d.1, d.2, d.3, d.4, d.5) == d);
        assert(dec_deployment(deployments_json(ds)[k]) == Some(d));
        lemma_deployments_round_trip(ds, k + 1);
        assert(seq![d] + ds.subrange(k + 1, ds.len() as int) =~= ds.subrange(k, ds.len() as int));
    }
}

pub proof fn lemma_costs_round_trip(c: (Seq<char>, Seq<DepModel>))
    ensures
        dec_deployment_costs(costs_json(c)) == Some(c),
{
    reveal_strlit("total_cost");
    reveal_strlit("deployments");
    assert("total_cost"@.len() == 10 && "deployments"@.len() == 11);
    let ms = seq![
        ("total_cost"@, JsonV::Num(c.0)),
        ("deployments"@, JsonV::Arr(deployments_json(c.1))),
    ];
    assert(obj_get(ms, "total_cost"@, 0) == Some(JsonV::Num(c.0)));
    assert(obj_get(ms, "deployments"@, 0) == obj_get(ms, "deployments"@, 1));
    assert(obj_get(ms, "deployments"@, 1) == Some(JsonV::Arr(deployments_json(c.1))));
    lemma_deployments_round_trip(c.1, 0);
    assert(c.1.subrange(0, c.1.len() as int) =~= c.1);
}

} // verus!
