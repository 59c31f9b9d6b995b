//! The metric mapper: pure transformations from decoded responses to
//! gauge emissions. Values are carried as exact numeric tokens; the
//! sink converts them at the boundary.
use vstd::prelude::*;
use crate::json::push_char;
use crate::schema::{
    ChartSeries,
    ChangeStatus,
    DepModel,
    DeploymentCosts,
    UserListing,
    buckets_model,
    deployments_model,
    users_model,
};

verus! {

broadcast use vstd::std_specs::vec::group_vec_axioms, vstd::seq::axiom_seq_index_decreases;

/// One metric label: a key and a value.
pub struct Label {
    pub key: String,
    pub value: String,
}

/// One gauge emission: a metric name, a value given as its exact
/// numeric token, and an ordered label set.
pub struct Emission {
    pub name: String,
    pub value: String,
    pub labels: Vec<Label>,
}

/// The model of an emission.
#[verifier::ext_equal]
pub ghost struct EmV {
    pub name: Seq<char>,
    pub value: Seq<char>,
    pub labels: Seq<(Seq<char>, Seq<char>)>,
}

pub open spec fn labels_model(ls: Seq<Label>) -> Seq<(Seq<char>, Seq<char>)> {
    Seq::new(
        ls.len(),
        |k: int|
            if 0 <= k && k < ls.len() {
                (ls[k].key@, ls[k].value@)
            } else {
                (Seq::empty(), Seq::empty())
            },
    )
}

pub open spec fn em_model(e: Emission) -> EmV {
    EmV { name: e.name@, value: e.value@, labels: labels_model(e.labels@) }
}

pub open spec fn ems_model(es: Seq<Emission>) -> Seq<EmV> {
    Seq::new(
        es.len(),
        |k: int|
            if 0 <= k && k < es.len() {
                em_model(es[k])
            } else {
                EmV { name: Seq::empty(), value: Seq::empty(), labels: Seq::empty() }
            },
    )
}

/// The decimal digit character for `d`.
pub open spec fn digit_char(d: int) -> char {
    ((48 + d) as u8) as char
}

/// The decimal representation of `n`, without leading zeroes.
pub open spec fn dec_seq(n: nat) -> Seq<char>
    decreases n,
{
    if n < 10 {
        seq![digit_char(n as int)]
    } else {
        dec_seq(n / 10).push(digit_char((n % 10) as int))
    }
}

/// Renders an unsigned count as its decimal token.
pub fn u64_to_dec(n: u64) -> (r: String)
    ensures
        r@ == dec_seq(n as nat),
    decreases n,
{
    if n < 10 {
        let mut s = String::new();
        push_char(&mut s, ((48 + n) as u8) as char);
        proof {
            assert(s@ =~= seq![digit_char(n as int)]);
        }
        s
    } else {
        let mut s = u64_to_dec(n / 10);
        push_char(&mut s, ((48 + (n % 10)) as u8) as char);
        s
    }
}

/// The emissions of a chart series: one `hourly_rate` gauge per point
/// of the first time bucket, none when the series is empty.
pub open spec fn chart_emissions(bs: Seq<(int, Seq<(Seq<char>, Seq<char>, Seq<char>)>)>) -> Seq<
    EmV,
> {
    if bs.len() == 0 {
        Seq::empty()
    } else {
        point_emissions(bs[0].1)
    }
}

pub open spec fn point_emissions(ps: Seq<(Seq<char>, Seq<char>, Seq<char>)>) -> Seq<EmV> {
    Seq::new(
        ps.len(),
        |k: int|
            if 0 <= k && k < ps.len() {
                EmV {
                    name: "hourly_rate"@,
                    value: ps[k].2,
                    labels: seq![("id"@, ps[k].0), ("name"@, ps[k].1)],
                }
            } else {
                EmV { name: Seq::empty(), value: Seq::empty(), labels: Seq::empty() }
            },
    )
}

/// Maps a chart series to emissions. An empty `data` sequence maps to
/// no emissions and is not an error.
#[verifier::loop_isolation(false)]
pub fn map_chart_series(c: &ChartSeries) -> (r: Vec<Emission>)
    ensures
        ems_model(r@) == chart_emissions(buckets_model(c.data@)),
        c.data@.len() == 0 ==> r@.len() == 0,
{
    let mut out: Vec<Emission> = Vec::new();
    if c.data.len() == 0 {
        proof {
            assert(ems_model(out@) =~= chart_emissions(buckets_model(c.data@)));
        }
        return out;
    }
    let ps = &c.data[0].values;
    let ghost psm = buckets_model(c.data@)[0].1;
    proof {
        assert(psm =~= crate::schema::points_model(ps@));
    }
    let mut k: usize = 0;
    while k < ps.len()
        invariant
            k <= ps@.len(),
            ems_model(out@) =~= point_emissions(psm).subrange(0, k as int),
        decreases ps@.len() - k,
    {
        let mut labels: Vec<Label> = Vec::new();
        labels.push(Label { key: String::from_str("id"), value: ps[k].id.clone() });
        labels.push(Label { key: String::from_str("name"), value: ps[k].name.clone() });
        let e = Emission {
            name: String::from_str("hourly_rate"),
            value: ps[k].value.clone(),
            labels,
        };
        let ghost out0 = out@;
        out.push(e);
        proof {
            assert(labels_model(e.labels@) =~= seq![("id"@, psm[k as int].0), ("name"@, psm[
                k as int].1)]);
            assert(em_model(e) =~= point_emissions(psm)[k as int]);
            assert(ems_model(out@) =~= point_emissions(psm).subrange(0, k + 1 as int));
        }
        k = k + 1;
    }
    proof {
        assert(point_emissions(psm).subrange(0, psm.len() as int) =~= point_emissions(psm));
        assert(ems_model(out@) =~= chart_emissions(buckets_model(c.data@)));
    }
    out
}

/// The itemized-cost emissions of one deployment, from dimension `t`
/// on.
pub open spec fn item_emissions_from(d: DepModel, t: int) -> Seq<EmV>
    decreases d.4.len() - t,
{
    if !(0 <= t && t < d.4.len()) {
        Seq::empty()
    } else {
        seq![
            EmV {
                name: "itemized_monthly_cost_total"@,
                value: d.4[t].1,
                labels: seq![("id"@, d.0), ("name"@, d.1), ("item"@, d.4[t].0)],
            },
        ] + item_emissions_from(d, t + 1)
    }
}

/// The emissions of one deployment: its monthly cost total, its
/// monthly hourly rate, and one itemized cost per dimension.
pub open spec fn deployment_emissions(d: DepModel) -> Seq<EmV> {
    seq![
        EmV {
            name: "monthly_cost_total"@,
            value: d.2,
            labels: seq![("id"@, d.0), ("name"@, d.1)],
        },
        EmV {
            name: "monthly_hourly_rate"@,
            value: d.3,
            labels: seq![("id"@, d.0), ("name"@, d.1)],
        },
    ] + item_emissions_from(d, 0)
}

/// The emissions of a deployment-costs document, from deployment `k`
/// on.
pub open spec fn costs_emissions(ds: Seq<DepModel>, k: int) -> Seq<EmV>
    decreases ds.len() - k,
{
    if !(0 <= k && k < ds.len()) {
        Seq::empty()
    } else {
        deployment_emissions(ds[k]) + costs_emissions(ds, k + 1)
    }
}

/// Maps a deployment-costs document to emissions.
#[verifier::loop_isolation(false)]
pub fn map_deployment_costs(c: &DeploymentCosts) -> (r: Vec<Emission>)
    ensures
        ems_model(r@) == costs_emissions(deployments_model(c.deployments@), 0),
{
    let ghost dsm = deployments_model(c.deployments@);
    let mut out: Vec<Emission> = Vec::new();
    let mut k: usize = 0;
    proof {
        assert(ems_model(out@) =~= Seq::<EmV>::empty());
        assert(ems_model(out@) + costs_emissions(dsm, 0) =~= costs_emissions(dsm, 0));
    }
    while k < c.deployments.len()
        invariant
            k <= c.deployments@.len(),
            ems_model(out@) + costs_emissions(dsm, k as int) == costs_emissions(dsm, 0),
        decreases c.deployments@.len() - k,
    {
        let d = &c.deployments[k];
        let ghost dm = dsm[k as int];
        proof {
            assert(dm == crate::schema::deployment_model(c.deployments@[k as int]));
        }
        let ghost base = ems_model(out@);
        let mut labels: Vec<Label> = Vec::new();
        labels.push(Label { key: String::from_str("id"), value: d.id.clone() });
        labels.push(Label { key: String::from_str("name"), value: d.name.clone() });
        let e1 = Emission {
            name: String::from_str("monthly_cost_total"),
            value: d.costs_total.clone(),
            labels,
        };
        out.push(e1);
        let mut labels2: Vec<Label> = Vec::new();
        labels2.push(Label { key: String::from_str("id"), value: d.id.clone() });
        labels2.push(Label { key: String::from_str("name"), value: d.name.clone() });
        let e2 = Emission {
            name: String::from_str("monthly_hourly_rate"),
            value: d.hourly_rate.clone(),
            labels: labels2,
        };
        out.push(e2);
        proof {
            assert(labels_model(e1.labels@) =~= seq![("id"@, dm.0), ("name"@, dm.1)]);
            assert(labels_model(e2.labels@) =~= seq![("id"@, dm.0), ("name"@, dm.1)]);
            assert(ems_model(out@) =~= base + seq![
                deployment_emissions(dm)[0],
                deployment_emissions(dm)[1],
            ]);
        }
        let mut t: usize = 0;
        while t < d.dimensions.len()
            invariant
                t <= d.dimensions@.len(),
                ems_model(out@) + item_emissions_from(dm, t as int) == base + deployment_emissions(
                    dm,
                ),
            decreases d.dimensions@.len() - t,
        {
            let mut labels3: Vec<Label> = Vec::new();
            labels3.push(Label { key: String::from_str("id"), value: d.id.clone() });
            labels3.push(Label { key: String::from_str("name"), value: d.name.clone() });
            labels3.push(Label { key: String::from_str("item"), value: d.dimensions[t].kind.clone() });
            let e3 = Emission {
                name: String::from_str("itemized_monthly_cost_total"),
                value: d.dimensions[t].cost.clone(),
                labels: labels3,
            };
            let ghost mid = ems_model(out@);
            out.push(e3);
            proof {
                assert(dm.4[t as int] == (d.dimensions@[t as int].kind@, d.dimensions@[
                    t as int].cost@));
                assert(labels_model(e3.labels@) =~= seq![("id"@, dm.0), ("name"@, dm.1), ("item"@, dm.4[
                    t as int].0)]);
                assert(em_model(e3) =~= item_emissions_from(dm, t as int)[0]);
                assert(ems_model(out@) =~= mid + seq![item_emissions_from(dm, t as int)[0]]);
                assert(ems_model(out@) + item_emissions_from(dm, t + 1 as int) =~= mid
                    + item_emissions_from(dm, t as int));
            }
            t = t + 1;
        }
        proof {
            assert(item_emissions_from(dm, d.dimensions@.len() as int) =~= Seq::<EmV>::empty());
            assert(ems_model(out@) =~= base + deployment_emissions(dm));
            assert(ems_model(out@) + costs_emissions(dsm, k + 1 as int) =~= base + costs_emissions(
                dsm,
                k as int,
            ));
        }
        k = k + 1;
    }
    proof {
        assert(costs_emissions(dsm, c.deployments@.len() as int) =~= Seq::<EmV>::empty());
        assert(ems_model(out@) + Seq::<EmV>::empty() =~= ems_model(out@));
    }
    out
}


/// No two emissions share the same (name, label set): within one
/// pass, a label set determines at most one gauge value.
pub open spec fn distinct_pairs(ems: Seq<EmV>) -> bool {
    forall|k1: int, k2: int|
        #![trigger ems[k1], ems[k2]]
        0 <= k1 < k2 < ems.len() ==> !(ems[k1].name == ems[k2].name && ems[k1].labels
            == ems[k2].labels)
}

/// Chart emissions supersede one another only by point id: distinct
/// ids give pairwise distinct label sets.
pub proof fn lemma_point_emissions_unique(ps: Seq<(Seq<char>, Seq<char>, Seq<char>)>)
    requires
        forall|i: int, j: int|
            #![trigger ps[i], ps[j]]
            0 <= i < j < ps.len() ==> ps[i].0 != ps[j].0,
    ensures
        distinct_pairs(point_emissions(ps)),
{
    let ems = point_emissions(ps);
    assert forall|k1: int, k2: int|
        #![trigger ems[k1], ems[k2]]
        0 <= k1 < k2 < ems.len() implies !(ems[k1].name == ems[k2].name && ems[k1].labels
        == ems[k2].labels) by {
        assert(ems[k1].labels[0].1 == ps[k1].0);
        assert(ems[k2].labels[0].1 == ps[k2].0);
        assert(ps[k1].0 != ps[k2].0);
    }
}

/// A deployment is well formed for emission when its dimension types
/// are pairwise distinct.
pub open spec fn dep_distinct_dims(d: DepModel) -> bool {
    forall|a: int, b: int|
        #![trigger d.4[a], d.4[b]]
        0 <= a < b < d.4.len() ==> d.4[a].0 != d.4[b].0
}

proof fn lemma_item_ems_index(d: DepModel, t: int)
    requires
        0 <= t <= d.4.len(),
    ensures
        item_emissions_from(d, t).len() == d.4.len() - t,
        forall|q: int|
            0 <= q < d.4.len() - t ==> #[trigger] item_emissions_from(d, t)[q] == (EmV {
                name: "itemized_monthly_cost_total"@,
                value: d.4[t + q].1,
                labels: seq![("id"@, d.0), ("name"@, d.1), ("item"@, d.4[t + q].0)],
            }),
    decreases d.4.len() - t,
{
    if t < d.4.len() {
        lemma_item_ems_index(d, t + 1);
    }
}

proof fn lemma_deployment_ems_shape(d: DepModel)
    ensures
        deployment_emissions(d).len() == 2 + d.4.len(),
        forall|q: int|
            0 <= q < deployment_emissions(d).len() ==> ((#[trigger] deployment_emissions(
                d,
            )[q]).labels.len() >= 2 && deployment_emissions(d)[q].labels[0] == ("id"@, d.0)),
        dep_distinct_dims(d) ==> distinct_pairs(deployment_emissions(d)),
{
    reveal_strlit("monthly_cost_total");
    reveal_strlit("monthly_hourly_rate");
    reveal_strlit("itemized_monthly_cost_total");
    assert("monthly_cost_total"@.len() == 18 && "monthly_hourly_rate"@.len() == 19
        && "itemized_monthly_cost_total"@.len() == 27);
    lemma_item_ems_index(d, 0);
    let ems = deployment_emissions(d);
    assert(forall|q: int|
        2 <= q < ems.len() ==> #[trigger] ems[q] == item_emissions_from(d, 0)[q - 2]);
    if dep_distinct_dims(d) {
        assert forall|k1: int, k2: int|
            #![trigger ems[k1], ems[k2]]
            0 <= k1 < k2 < ems.len() implies !(ems[k1].name == ems[k2].name && ems[k1].labels
            == ems[k2].labels) by {
            if 2 <= k1 {
                assert(ems[k1].labels[2].1 == d.4[k1 - 2].0);
                assert(ems[k2].labels[2].1 == d.4[k2 - 2].0);
                assert(d.4[k1 - 2].0 != d.4[k2 - 2].0);
            }
        }
    }
}

/// Every costs emission from deployment `k` on carries, as its first
/// label, the id of one of those deployments.
pub open spec fn ems_ids_from(ems: Seq<EmV>, ds: Seq<DepModel>, k: int) -> bool {
    forall|q: int|
        0 <= q < ems.len() ==> (#[trigger] ems[q]).labels.len() >= 1 && ems[q].labels[0].0 == "id"@
            && exists|j: int|
            #![trigger ds[j]]
            k <= j < ds.len() && ems[q].labels[0].1 == ds[j].0
}

proof fn lemma_costs_ems_unique_from(ds: Seq<DepModel>, k: int)
    requires
        0 <= k <= ds.len(),
        forall|i: int, j: int|
            #![trigger ds[i], ds[j]]
            0 <= i < j < ds.len() ==> ds[i].0 != ds[j].0,
        forall|j: int| 0 <= j < ds.len() ==> dep_distinct_dims(#[trigger] ds[j]),
    ensures
        distinct_pairs(costs_emissions(ds, k)),
        ems_ids_from(costs_emissions(ds, k), ds, k),
    decreases ds.len() - k,
{
    if k == ds.len() {
    } else {
        lemma_costs_ems_unique_from(ds, k + 1);
        lemma_deployment_ems_shape(ds[k]);
        let first = deployment_emissions(ds[k]);
        let rest = costs_emissions(ds, k + 1);
        let ems = costs_emissions(ds, k);
        assert(ems == first + rest);
        assert forall|q: int|
            0 <= q < ems.len() implies (#[trigger] ems[q]).labels.len() >= 1 && ems[q].labels[0].0
            == "id"@ && exists|j: int|
            #![trigger ds[j]]
            k <= j < ds.len() && ems[q].labels[0].1 == ds[j].0 by {
            if q < first.len() {
                assert(ems[q] == first[q]);
                assert(ems[q].labels[0] == ("id"@, ds[k].0));
                assert(k <= k < ds.len() && ems[q].labels[0].1 == ds[k].0);
            } else {
                assert(ems[q] == rest[q - first.len()]);
            }
        }
        assert forall|k1: int, k2: int|
            #![trigger ems[k1], ems[k2]]
            0 <= k1 < k2 < ems.len() implies !(ems[k1].name == ems[k2].name && ems[k1].labels
            == ems[k2].labels) by {
            if k2 < first.len() {
                assert(ems[k1] == first[k1] && ems[k2] == first[k2]);
            } else if k1 >= first.len() {
                assert(ems[k1] == rest[k1 - first.len()] && ems[k2] == rest[k2 - first.len()]);
            } else {
                assert(ems[k1] == first[k1]);
                assert(ems[k2] == rest[k2 - first.len()]);
                assert(ems[k1].labels[0] == ("id"@, ds[k].0));
                let j = choose|j: int|
                    #![trigger ds[j]]
                    k + 1 <= j < ds.len() && ems[k2].labels[0].1 == ds[j].0;
                assert(ds[k].0 != ds[j].0);
                assert(ems[k1].labels[0].1 != ems[k2].labels[0].1);
            }
        }
    }
}

/// Within one pass, no two deployment-costs emissions share a
/// (name, label set) pair: a deployment's id is its identity, so
/// under distinct deployment ids, and distinct dimension types within
/// each deployment, every emitted label set determines exactly one
/// gauge value.
pub proof fn lemma_costs_emissions_unique(ds: Seq<DepModel>)
    requires
        forall|i: int, j: int|
            #![trigger ds[i], ds[j]]
            0 <= i < j < ds.len() ==> ds[i].0 != ds[j].0,
        forall|j: int| 0 <= j < ds.len() ==> dep_distinct_dims(#[trigger] ds[j]),
    ensures
        distinct_pairs(costs_emissions(ds, 0)),
{
    lemma_costs_ems_unique_from(ds, 0);
}

/// The scopes a user's emissions range over: its own scopes, or the
/// single synthesized scope `all` of type `CLUSTER` when it has none
/// (an unscoped user counts as scoped to everything).
pub open spec fn scope_or_all(scopes: Seq<(Seq<char>, Seq<char>)>) -> Seq<(Seq<char>, Seq<char>)> {
    if scopes.len() == 0 {
        seq![("all"@, "CLUSTER"@)]
    } else {
        scopes
    }
}

/// The `project_user` emissions of one user: one per (user, scope)
/// pair.
pub open spec fn user_emissions(project: Seq<char>, u: (Seq<char>, Seq<(Seq<char>, Seq<char>)>)) -> Seq<
    EmV,
> {
    Seq::new(
        scope_or_all(u.1).len(),
        |k: int|
            if 0 <= k && k < scope_or_all(u.1).len() {
                EmV {
                    name: "project_user"@,
                    value: "1"@,
                    labels: seq![
                        ("username"@, u.0),
                        ("project"@, project),
                        ("scope"@, scope_or_all(u.1)[k].0),
                    ],
                }
            } else {
                EmV { name: Seq::empty(), value: Seq::empty(), labels: Seq::empty() }
            },
    )
}

/// The `project_user` emissions of a user listing, from user `k` on.
pub open spec fn users_emissions(
    project: Seq<char>,
    us: Seq<(Seq<char>, Seq<(Seq<char>, Seq<char>)>)>,
    k: int,
) -> Seq<EmV>
    decreases us.len() - k,
{
    if !(0 <= k && k < us.len()) {
        Seq::empty()
    } else {
        user_emissions(project, us[k]) + users_emissions(project, us, k + 1)
    }
}

/// The emissions of a user listing: the user count, then one
/// `project_user` emission per (user, scope) pair.
pub open spec fn user_listing_emissions(
    project: Seq<char>,
    us: Seq<(Seq<char>, Seq<(Seq<char>, Seq<char>)>)>,
) -> Seq<EmV> {
    seq![
        EmV {
            name: "project_users_total"@,
            value: dec_seq(us.len()),
            labels: seq![("project"@, project)],
        },
    ] + users_emissions(project, us, 0)
}

/// A user's scopes have no bearing on any other user's emissions: a
/// user with no scopes yields exactly one `project_user` emission,
/// whose scope label is `all`.
pub proof fn lemma_unscoped_user_single_emission(
    project: Seq<char>,
    u: (Seq<char>, Seq<(Seq<char>, Seq<char>)>),
)
    requires
        u.1.len() == 0,
    ensures
        user_emissions(project, u).len() == 1,
        user_emissions(project, u)[0].name == "project_user"@,
        user_emissions(project, u)[0].value == "1"@,
        user_emissions(project, u)[0].labels == seq![
            ("username"@, u.0),
            ("project"@, project),
            ("scope"@, "all"@),
        ],
{
    assert(scope_or_all(u.1) =~= seq![("all"@, "CLUSTER"@)]);
}

/// Maps a user listing, attributed to `project`, to emissions.
#[verifier::loop_isolation(false)]
pub fn map_user_listing(project: &str, u: &UserListing) -> (r: Vec<Emission>)
    ensures
        ems_model(r@) == user_listing_emissions(project@, users_model(u.results@)),
{
    let ghost um = users_model(u.results@);
    let mut out: Vec<Emission> = Vec::new();
    let mut labels: Vec<Label> = Vec::new();
    labels.push(Label { key: String::from_str("project"), value: project.to_owned() });
    let count = u64_to_dec(u.results.len() as u64);
    let e0 = Emission { name: String::from_str("project_users_total"), value: count, labels };
    out.push(e0);
    proof {
        assert(labels_model(e0.labels@) =~= seq![("project"@, project@)]);
        assert(em_model(e0) =~= user_listing_emissions(project@, um)[0]);
        assert(ems_model(out@) =~= seq![user_listing_emissions(project@, um)[0]]);
        assert(ems_model(out@) + users_emissions(project@, um, 0) =~= user_listing_emissions(
            project@,
            um,
        ));
    }
    let mut k: usize = 0;
    while k < u.results.len()
        invariant
            k <= u.results@.len(),
            ems_model(out@) + users_emissions(project@, um, k as int) == user_listing_emissions(
                project@,
                um,
            ),
        decreases u.results@.len() - k,
    {
        let ghost base = ems_model(out@);
        let ghost uk = um[k as int];
        proof {
            assert(uk == crate::schema::user_model(u.results@[k as int]));
        }
        let entry = &u.results[k];
        if entry.scopes.len() == 0 {
            let mut labels1: Vec<Label> = Vec::new();
            labels1.push(Label {
                key: String::from_str("username"),
                value: entry.username.clone(),
            });
            labels1.push(Label { key: String::from_str("project"), value: project.to_owned() });
            labels1.push(Label { key: String::from_str("scope"), value: String::from_str("all") });
            let e = Emission {
                name: String::from_str("project_user"),
                value: String::from_str("1"),
                labels: labels1,
            };
            out.push(e);
            proof {
                assert(scope_or_all(uk.1) =~= seq![("all"@, "CLUSTER"@)]);
                assert(labels_model(e.labels@) =~= seq![
                    ("username"@, uk.0),
                    ("project"@, project@),
                    ("scope"@, "all"@),
                ]);
                assert(em_model(e) =~= user_emissions(project@, uk)[0]);
                assert(user_emissions(project@, uk) =~= seq![user_emissions(project@, uk)[0]]);
                assert(ems_model(out@) =~= base + user_emissions(project@, uk));
            }
        } else {
            let mut t: usize = 0;
            proof {
                assert(scope_or_all(uk.1) =~= uk.1);
                assert(user_emissions(project@, uk).subrange(0, 0) =~= Seq::<EmV>::empty());
                assert(ems_model(out@) =~= base + user_emissions(project@, uk).subrange(0, 0));
            }
            while t < entry.scopes.len()
                invariant
                    t <= entry.scopes@.len(),
                    ems_model(out@) =~= base + user_emissions(project@, uk).subrange(0, t as int),
                decreases entry.scopes@.len() - t,
            {
                let mut labels2: Vec<Label> = Vec::new();
                labels2.push(Label {
                    key: String::from_str("username"),
                    value: entry.username.clone(),
                });
                labels2.push(Label { key: String::from_str("project"), value: project.to_owned() });
                labels2.push(Label {
                    key: String::from_str("scope"),
                    value: entry.scopes[t].name.clone(),
                });
                let e = Emission {
                    name: String::from_str("project_user"),
                    value: String::from_str("1"),
                    labels: labels2,
                };
                let ghost mid = ems_model(out@);
                out.push(e);
                proof {
                    assert(uk.1[t as int] == (entry.scopes@[t as int].name@, entry.scopes@[
                        t as int].kind@));
                    assert(labels_model(e.labels@) =~= seq![
                        ("username"@, uk.0),
                        ("project"@, project@),
                        ("scope"@, uk.1[t as int].0),
                    ]);
                    assert(em_model(e) =~= user_emissions(project@, uk)[t as int]);
                    assert(ems_model(out@) =~= mid + seq![user_emissions(project@, uk)[t as int]]);
                    assert(user_emissions(project@, uk).subrange(0, t + 1 as int) =~= user_emissions(
                        project@,
                        uk,
                    ).subrange(0, t as int).push(user_emissions(project@, uk)[t as int]));
                }
                t = t + 1;
            }
            proof {
                assert(user_emissions(project@, uk).subrange(
                    0,
                    user_emissions(project@, uk).len() as int,
                ) =~= user_emissions(project@, uk));
                assert(ems_model(out@) =~= base + user_emissions(project@, uk));
            }
        }
        proof {
            assert(ems_model(out@) + users_emissions(project@, um, k + 1 as int) =~= base
                + users_emissions(project@, um, k as int));
        }
        k = k + 1;
    }
    proof {
        assert(users_emissions(project@, um, u.results@.len() as int) =~= Seq::<EmV>::empty());
        assert(ems_model(out@) + Seq::<EmV>::empty() =~= ems_model(out@));
    }
    out
}


/// A user is well formed for emission when its scope names are
/// pairwise distinct.
pub open spec fn user_distinct_scopes(u: (Seq<char>, Seq<(Seq<char>, Seq<char>)>)) -> bool {
    forall|a: int, b: int|
        #![trigger u.1[a], u.1[b]]
        0 <= a < b < u.1.len() ==> u.1[a].0 != u.1[b].0
}

proof fn lemma_user_ems_shape(project: Seq<char>, u: (Seq<char>, Seq<(Seq<char>, Seq<char>)>))
    ensures
        user_emissions(project, u).len() == scope_or_all(u.1).len() >= 1,
        forall|q: int|
            0 <= q < user_emissions(project, u).len() ==> ((#[trigger] user_emissions(
                project,
                u,
            )[q]).name == "project_user"@ && user_emissions(project, u)[q].labels.len() == 3
                && user_emissions(project, u)[q].labels[0] == ("username"@, u.0) && user_emissions(
                project,
                u,
            )[q].labels[2].1 == scope_or_all(u.1)[q].0),
        user_distinct_scopes(u) ==> distinct_pairs(user_emissions(project, u)),
{
    let ems = user_emissions(project, u);
    if user_distinct_scopes(u) {
        assert forall|k1: int, k2: int|
            #![trigger ems[k1], ems[k2]]
            0 <= k1 < k2 < ems.len() implies !(ems[k1].name == ems[k2].name && ems[k1].labels
            == ems[k2].labels) by {
            assert(ems[k1].labels[2].1 == scope_or_all(u.1)[k1].0);
            assert(ems[k2].labels[2].1 == scope_or_all(u.1)[k2].0);
            assert(scope_or_all(u.1) == u.1);
            assert(u.1[k1].0 != u.1[k2].0);
        }
    }
}

/// Every per-user emission from user `k` on carries, as its first
/// label, the username of one of those users.
pub open spec fn users_ems_from(
    ems: Seq<EmV>,
    us: Seq<(Seq<char>, Seq<(Seq<char>, Seq<char>)>)>,
    k: int,
) -> bool {
    forall|q: int|
        0 <= q < ems.len() ==> ((#[trigger] ems[q]).name == "project_user"@ && ems[q].labels.len()
            == 3 && ems[q].labels[0].0 == "username"@ && exists|j: int|
            #![trigger us[j]]
            k <= j < us.len() && ems[q].labels[0].1 == us[j].0)
}

proof fn lemma_users_ems_unique_from(
    project: Seq<char>,
    us: Seq<(Seq<char>, Seq<(Seq<char>, Seq<char>)>)>,
    k: int,
)
    requires
        0 <= k <= us.len(),
        forall|i: int, j: int|
            #![trigger us[i], us[j]]
            0 <= i < j < us.len() ==> us[i].0 != us[j].0,
        forall|j: int| 0 <= j < us.len() ==> user_distinct_scopes(#[trigger] us[j]),
    ensures
        distinct_pairs(users_emissions(project, us, k)),
        users_ems_from(users_emissions(project, us, k), us, k),
    decreases us.len() - k,
{
    if k < us.len() {
        lemma_users_ems_unique_from(project, us, k + 1);
        lemma_user_ems_shape(project, us[k]);
        let first = user_emissions(project, us[k]);
        let rest = users_emissions(project, us, k + 1);
        let ems = users_emissions(project, us, k);
        assert(ems == first + rest);
        assert forall|q: int|
            0 <= q < ems.len() implies ((#[trigger] ems[q]).name == "project_user"@
            && ems[q].labels.len() == 3 && ems[q].labels[0].0 == "username"@ && exists|j: int|
            #![trigger us[j]]
            k <= j < us.len() && ems[q].labels[0].1 == us[j].0) by {
            if q < first.len() {
                assert(ems[q] == first[q]);
                assert(ems[q].labels[0] == ("username"@, us[k].0));
                assert(k <= k < us.len() && ems[q].labels[0].1 == us[k].0);
            } else {
                assert(ems[q] == rest[q - first.len()]);
            }
        }
        assert forall|k1: int, k2: int|
            #![trigger ems[k1], ems[k2]]
            0 <= k1 < k2 < ems.len() implies !(ems[k1].name == ems[k2].name && ems[k1].labels
            == ems[k2].labels) by {
            if k2 < first.len() {
                assert(ems[k1] == first[k1] && ems[k2] == first[k2]);
            } else if k1 >= first.len() {
                assert(ems[k1] == rest[k1 - first.len()] && ems[k2] == rest[k2 - first.len()]);
            } else {
                assert(ems[k1] == first[k1]);
                assert(ems[k2] == rest[k2 - first.len()]);
                assert(ems[k1].labels[0] == ("username"@, us[k].0));
                let j = choose|j: int|
                    #![trigger us[j]]
                    k + 1 <= j < us.len() && ems[k2].labels[0].1 == us[j].0;
                assert(us[k].0 != us[j].0);
            }
        }
    }
}

/// Within one pass, no two user-listing emissions share a (name,
/// label set) pair: usernames identify users, so under distinct
/// usernames, and distinct scope names per user, every emitted label
/// set determines exactly one gauge value.
pub proof fn lemma_user_listing_emissions_unique(
    project: Seq<char>,
    us: Seq<(Seq<char>, Seq<(Seq<char>, Seq<char>)>)>,
)
    requires
        forall|i: int, j: int|
            #![trigger us[i], us[j]]
            0 <= i < j < us.len() ==> us[i].0 != us[j].0,
        forall|j: int| 0 <= j < us.len() ==> user_distinct_scopes(#[trigger] us[j]),
    ensures
        distinct_pairs(user_listing_emissions(project, us)),
{
    reveal_strlit("project_users_total");
    reveal_strlit("project_user");
    assert("project_users_total"@.len() == 19 && "project_user"@.len() == 12);
    lemma_users_ems_unique_from(project, us, 0);
    let ems = user_listing_emissions(project, us);
    let rest = users_emissions(project, us, 0);
    assert forall|k1: int, k2: int|
        #![trigger ems[k1], ems[k2]]
        0 <= k1 < k2 < ems.len() implies !(ems[k1].name == ems[k2].name && ems[k1].labels
        == ems[k2].labels) by {
        if k1 == 0 {
            assert(ems[k2] == rest[k2 - 1]);
            assert(ems[k2].name == "project_user"@);
        } else {
            assert(ems[k1] == rest[k1 - 1] && ems[k2] == rest[k2 - 1]);
        }
    }
}

/// The ordinal of a change status: `APPLIED` is 0, `PENDING` is 1,
/// and every other status falls into the 2 bucket.
pub open spec fn status_ordinal(st: Seq<char>) -> int {
    if st == "APPLIED"@ {
        0
    } else if st == "PENDING"@ {
        1
    } else {
        2
    }
}

/// Every status outside APPLIED and PENDING maps to ordinal 2; an
/// unrecognized status never fails the pass.
pub proof fn lemma_unknown_status_ordinal(st: Seq<char>)
    requires
        st != "APPLIED"@,
        st != "PENDING"@,
    ensures
        status_ordinal(st) == 2,
{
}

/// The `cluster_status` emission of one cluster.
pub open spec fn status_emission(project: Seq<char>, cluster: Seq<char>, st: Seq<char>) -> EmV {
    EmV {
        name: "cluster_status"@,
        value: dec_seq(status_ordinal(st) as nat),
        labels: seq![("project"@, project), ("cluster"@, cluster)],
    }
}

/// Maps a cluster's change status to its emission.
pub fn map_change_status(project: &str, cluster: &str, st: &ChangeStatus) -> (r: Emission)
    ensures
        em_model(r) == status_emission(project@, cluster@, st.change_status@),
{
    let applied = String::from_str("APPLIED");
    let pending = String::from_str("PENDING");
    let ord: u64 = if st.change_status == applied {
        0
    } else if st.change_status == pending {
        1
    } else {
        2
    };
    proof {
        assert(ord as int == status_ordinal(st.change_status@));
    }
    let mut labels: Vec<Label> = Vec::new();
    labels.push(Label { key: String::from_str("project"), value: project.to_owned() });
    labels.push(Label { key: String::from_str("cluster"), value: cluster.to_owned() });
    let e = Emission {
        name: String::from_str("cluster_status"),
        value: u64_to_dec(ord),
        labels,
    };
    proof {
        assert(labels_model(e.labels@) =~= seq![("project"@, project@), ("cluster"@, cluster@)]);
        assert(em_model(e) =~= status_emission(project@, cluster@, st.change_status@));
    }
    e
}

} // verus!
