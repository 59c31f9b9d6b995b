use elastic_exporter::FetchError;
use elastic_exporter::mapper::Emission;
use elastic_exporter::sched::{Scheduler, PassState, StepKind};

fn labels_of(e: &Emission) -> Vec<(String, String)> {
    e.labels.iter().map(|l| (l.key.clone(), l.value.clone())).collect()
}

fn label(e: &Emission, key: &str) -> Option<String> {
    e.labels.iter().find(|l| l.key == key).map(|l| l.value.clone())
}

#[test]
fn top_level_failure_aborts_the_pass_with_no_emissions() {
    let mut s = Scheduler::new(8);
    let path = s.begin_pass();
    assert_eq!(path, "groups?itemsPerPage=500");
    let r = s.top_level_done(Err(FetchError::Forbidden));
    assert!(matches!(r, Err(FetchError::Forbidden)));
    assert!(matches!(s.state, PassState::Idle));
    assert!(s.emissions.is_empty());

    let mut s2 = Scheduler::new(8);
    s2.begin_pass();
    let r2 = s2.top_level_done(Ok("not json".to_string()));
    assert!(matches!(r2, Err(FetchError::Malformed)));
    assert!(s2.emissions.is_empty());
}

#[test]
fn empty_group_listing_completes_immediately() {
    let mut s = Scheduler::new(8);
    s.begin_pass();
    let reqs = s.top_level_done(Ok(r#"{"results":[],"totalCount":0}"#.to_string())).unwrap();
    assert!(reqs.is_empty());
    assert!(matches!(s.state, PassState::Idle));
}

#[test]
fn concurrency_cap_bounds_in_flight_tasks() {
    let mut s = Scheduler::new(2);
    s.begin_pass();
    let body = r#"{"results":[
        {"id":"g1","name":"A"},{"id":"g2","name":"B"},{"id":"g3","name":"C"}
    ],"totalCount":3}"#;
    let reqs = s.top_level_done(Ok(body.to_string())).unwrap();
    assert_eq!(reqs.len(), 2);
    assert_eq!(s.in_flight, 2);
    assert!(matches!(s.state, PassState::FanningOut));

    // finishing one task frees its slot and starts the third group
    let _clusters_req = s.users_done(0, Err(FetchError::NotFound));
    assert_eq!(s.in_flight, 2);
    let started = s.clusters_done(0, Err(FetchError::NotFound));
    assert_eq!(started.len(), 1);
    assert_eq!(started[0].entity, 2);
    assert!(matches!(started[0].step, StepKind::Users));
    assert_eq!(started[0].path, "groups/g3/databaseUsers?itemsPerPage=500");
    assert_eq!(s.in_flight, 2);
    assert!(s.in_flight <= 2);
    assert!(matches!(s.state, PassState::Draining));
}

#[test]
fn two_group_scenario_with_isolated_failure() {
    // group A's user listing fails with 401; A has one cluster X whose
    // status is APPLIED; group B has one user without scopes.
    let mut s = Scheduler::new(8);
    s.begin_pass();
    let listing = r#"{"results":[{"id":"gA","name":"A"},{"id":"gB","name":"B"}],"totalCount":2}"#;
    let reqs = s.top_level_done(Ok(listing.to_string())).unwrap();
    assert_eq!(reqs.len(), 2);
    assert_eq!(reqs[0].path, "groups/gA/databaseUsers?itemsPerPage=500");
    assert_eq!(reqs[1].path, "groups/gB/databaseUsers?itemsPerPage=500");

    // A's user listing fetch returns 401: isolated, the task proceeds
    let a_clusters = s.users_done(0, Err(FetchError::Unauthorized));
    assert_eq!(a_clusters.path, "groups/gA/clusters?itemsPerPage=500");
    assert!(s.emissions.is_empty());

    // B's user listing returns one user with no scopes
    let b_users = r#"{"results":[{"username":"u9","scopes":[]}]}"#;
    let _b_clusters = s.users_done(1, Ok(b_users.to_string()));

    // A's cluster listing succeeds with one cluster X
    let a_status = s.clusters_done(0, Ok(r#"{"results":[{"name":"X"}]}"#.to_string()));
    assert_eq!(a_status.len(), 1);
    assert_eq!(a_status[0].path, "groups/gA/clusters/X/status");

    // B has no clusters
    let none = s.clusters_done(1, Ok(r#"{"results":[]}"#.to_string()));
    assert!(none.is_empty());

    // X's status is APPLIED
    let done = s.status_done(0, Ok(r#"{"changeStatus":"APPLIED"}"#.to_string()));
    assert!(done.is_empty());
    assert!(matches!(s.state, PassState::Idle));

    // expected: no project_users_total for A
    assert!(!s.emissions.iter().any(|e| e.name == "project_users_total"
        && label(e, "project").as_deref() == Some("A")));
    // cluster_status{project=A,cluster=X} = 0
    let st: Vec<&Emission> = s.emissions.iter().filter(|e| e.name == "cluster_status").collect();
    assert_eq!(st.len(), 1);
    assert_eq!(st[0].value, "0");
    assert_eq!(
        labels_of(st[0]),
        vec![("project".to_string(), "A".to_string()), ("cluster".to_string(), "X".to_string())]
    );
    // project_users_total{project=B} = 1
    let tot: Vec<&Emission> =
        s.emissions.iter().filter(|e| e.name == "project_users_total").collect();
    assert_eq!(tot.len(), 1);
    assert_eq!(tot[0].value, "1");
    assert_eq!(label(tot[0], "project").as_deref(), Some("B"));
    // project_user{username=u9,project=B,scope=all} = 1
    let pu: Vec<&Emission> = s.emissions.iter().filter(|e| e.name == "project_user").collect();
    assert_eq!(pu.len(), 1);
    assert_eq!(pu[0].value, "1");
    assert_eq!(
        labels_of(pu[0]),
        vec![
            ("username".to_string(), "u9".to_string()),
            ("project".to_string(), "B".to_string()),
            ("scope".to_string(), "all".to_string()),
        ]
    );
}

#[test]
fn failed_status_fetch_still_advances_to_next_cluster() {
    let mut s = Scheduler::new(8);
    s.begin_pass();
    let listing = r#"{"results":[{"id":"g","name":"G"}],"totalCount":1}"#;
    s.top_level_done(Ok(listing.to_string())).unwrap();
    s.users_done(0, Err(FetchError::NotFound));
    let first = s.clusters_done(
        0,
        Ok(r#"{"results":[{"name":"c1"},{"name":"c2"}]}"#.to_string()),
    );
    assert_eq!(first[0].path, "groups/g/clusters/c1/status");
    let second = s.status_done(0, Err(FetchError::UnknownStatus(503)));
    assert_eq!(second.len(), 1);
    assert_eq!(second[0].path, "groups/g/clusters/c2/status");
    let done = s.status_done(0, Ok(r#"{"changeStatus":"PENDING"}"#.to_string()));
    assert!(done.is_empty());
    assert_eq!(s.emissions.len(), 1);
    assert_eq!(s.emissions[0].name, "cluster_status");
    assert_eq!(s.emissions[0].value, "1");
    assert_eq!(label(&s.emissions[0], "cluster").as_deref(), Some("c2"));
}

#[test]
fn failed_cluster_listing_skips_status_lookups() {
    let mut s = Scheduler::new(8);
    s.begin_pass();
    let listing = r#"{"results":[{"id":"g","name":"G"}],"totalCount":1}"#;
    s.top_level_done(Ok(listing.to_string())).unwrap();
    s.users_done(0, Ok(r#"{"results":[]}"#.to_string()));
    let reqs = s.clusters_done(0, Err(FetchError::Forbidden));
    assert!(reqs.is_empty());
    assert!(matches!(s.state, PassState::Idle));
    // the users metric survived the later failure
    assert_eq!(s.emissions.len(), 1);
    assert_eq!(s.emissions[0].name, "project_users_total");
    assert_eq!(s.emissions[0].value, "0");
}
