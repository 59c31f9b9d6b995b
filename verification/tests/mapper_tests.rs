use elastic_exporter::mapper::{map_chart_series, map_deployment_costs, map_user_listing,
    map_change_status, u64_to_dec, Emission};
use elastic_exporter::schema::{decode_chart_series, decode_deployment_costs, decode_user_listing,
    ChangeStatus};

fn labels_of(e: &Emission) -> Vec<(String, String)> {
    e.labels.iter().map(|l| (l.key.clone(), l.value.clone())).collect()
}

#[test]
fn renders_decimal_tokens() {
    assert_eq!(u64_to_dec(0), "0");
    assert_eq!(u64_to_dec(7), "7");
    assert_eq!(u64_to_dec(10), "10");
    assert_eq!(u64_to_dec(305), "305");
    assert_eq!(u64_to_dec(u64::MAX), "18446744073709551615");
}

#[test]
fn empty_chart_emits_nothing() {
    let c = decode_chart_series(r#"{"data":[]}"#).unwrap();
    let ems = map_chart_series(&c);
    assert!(ems.is_empty());
}

#[test]
fn chart_maps_first_bucket_points() {
    let body = r#"{"data":[{"timestamp":1,"values":[
        {"id":"d1","name":"one","value":0.25},
        {"id":"d2","name":"two","value":3}
    ]},{"timestamp":2,"values":[{"id":"zz","name":"ignored","value":9}]}]}"#;
    let c = decode_chart_series(body).unwrap();
    let ems = map_chart_series(&c);
    assert_eq!(ems.len(), 2);
    assert_eq!(ems[0].name, "hourly_rate");
    assert_eq!(ems[0].value, "0.25");
    assert_eq!(
        labels_of(&ems[0]),
        vec![("id".to_string(), "d1".to_string()), ("name".to_string(), "one".to_string())]
    );
    assert_eq!(ems[1].value, "3");
}

#[test]
fn costs_map_per_deployment_and_dimension() {
    let body = r#"{"total_cost":12.5,"deployments":[
        {"deployment_id":"d1","deployment_name":"n1",
         "costs":{"total":10.25,"dimensions":[{"type":"capacity","cost":9.5}]},
         "hourly_rate":0.014,"period":{"start":"s","end":"e"}}
    ]}"#;
    let c = decode_deployment_costs(body).unwrap();
    let ems = map_deployment_costs(&c);
    assert_eq!(ems.len(), 3);
    assert_eq!(ems[0].name, "monthly_cost_total");
    assert_eq!(ems[0].value, "10.25");
    assert_eq!(ems[1].name, "monthly_hourly_rate");
    assert_eq!(ems[1].value, "0.014");
    assert_eq!(ems[2].name, "itemized_monthly_cost_total");
    assert_eq!(ems[2].value, "9.5");
    assert_eq!(
        labels_of(&ems[2]),
        vec![
            ("id".to_string(), "d1".to_string()),
            ("name".to_string(), "n1".to_string()),
            ("item".to_string(), "capacity".to_string()),
        ]
    );
}

#[test]
fn unscoped_user_gets_exactly_one_all_scope_emission() {
    let u = decode_user_listing(r#"{"results":[{"username":"u1","scopes":[]}]}"#).unwrap();
    let ems = map_user_listing("projA", &u);
    assert_eq!(ems.len(), 2);
    assert_eq!(ems[0].name, "project_users_total");
    assert_eq!(ems[0].value, "1");
    assert_eq!(labels_of(&ems[0]), vec![("project".to_string(), "projA".to_string())]);
    let per_user: Vec<&Emission> = ems.iter().filter(|e| e.name == "project_user").collect();
    assert_eq!(per_user.len(), 1);
    assert_eq!(per_user[0].value, "1");
    assert_eq!(
        labels_of(per_user[0]),
        vec![
            ("username".to_string(), "u1".to_string()),
            ("project".to_string(), "projA".to_string()),
            ("scope".to_string(), "all".to_string()),
        ]
    );
}

#[test]
fn scoped_user_gets_one_emission_per_scope() {
    let body = r#"{"results":[{"username":"u2","scopes":[
        {"name":"c1","type":"CLUSTER"},{"name":"c2","type":"CLUSTER"}
    ]}]}"#;
    let u = decode_user_listing(body).unwrap();
    let ems = map_user_listing("p", &u);
    assert_eq!(ems.len(), 3);
    assert_eq!(ems[1].name, "project_user");
    assert_eq!(labels_of(&ems[1])[2], ("scope".to_string(), "c1".to_string()));
    assert_eq!(labels_of(&ems[2])[2], ("scope".to_string(), "c2".to_string()));
}

#[test]
fn status_ordinals() {
    let mk = |s: &str| ChangeStatus { change_status: s.to_string() };
    let e = map_change_status("p", "c", &mk("APPLIED"));
    assert_eq!(e.name, "cluster_status");
    assert_eq!(e.value, "0");
    assert_eq!(
        labels_of(&e),
        vec![("project".to_string(), "p".to_string()), ("cluster".to_string(), "c".to_string())]
    );
    assert_eq!(map_change_status("p", "c", &mk("PENDING")).value, "1");
    assert_eq!(map_change_status("p", "c", &mk("OSUpdating")).value, "2");
    assert_eq!(map_change_status("p", "c", &mk("")).value, "2");
    assert_eq!(map_change_status("p", "c", &mk("applied")).value, "2");
}
