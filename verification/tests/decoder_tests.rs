use elastic_exporter::classify_response;
use elastic_exporter::FetchError;
use elastic_exporter::schema::{
    decode_group_listing, decode_cluster_listing, decode_user_listing, decode_change_status,
    decode_chart_series, decode_deployment_costs,
};

#[test]
fn classifies_statuses() {
    assert_eq!(classify_response(200, "body".to_string()).unwrap(), "body");
    assert!(matches!(classify_response(404, String::new()), Err(FetchError::NotFound)));
    assert!(matches!(classify_response(403, String::new()), Err(FetchError::Forbidden)));
    assert!(matches!(classify_response(401, String::new()), Err(FetchError::Unauthorized)));
    assert!(matches!(classify_response(500, String::new()), Err(FetchError::UnknownStatus(500))));
    assert!(matches!(classify_response(302, String::new()), Err(FetchError::UnknownStatus(302))));
}

#[test]
fn decodes_group_listing() {
    let body = r#"{"results":[{"id":"g1","name":"alpha"},{"id":"g2","name":"beta"}],"totalCount":2}"#;
    let g = decode_group_listing(body).unwrap();
    assert_eq!(g.results.len(), 2);
    assert_eq!(g.results[0].id, "g1");
    assert_eq!(g.results[0].name, "alpha");
    assert_eq!(g.results[1].id, "g2");
    assert_eq!(g.total_count, 2);
}

#[test]
fn group_listing_ignores_unknown_fields() {
    let body = r#"{"extra":[1,2],"results":[{"id":"g1","name":"a","links":{"x":null}}],"totalCount":1}"#;
    let g = decode_group_listing(body).unwrap();
    assert_eq!(g.results.len(), 1);
}

#[test]
fn group_listing_missing_field_is_malformed() {
    let body = r#"{"results":[{"id":"g1"}],"totalCount":1}"#;
    assert!(matches!(decode_group_listing(body), Err(FetchError::Malformed)));
    let body2 = r#"{"results":[{"id":"g1","name":"a"}]}"#;
    assert!(matches!(decode_group_listing(body2), Err(FetchError::Malformed)));
    assert!(matches!(decode_group_listing("not json"), Err(FetchError::Malformed)));
}

#[test]
fn group_listing_total_count_bounds() {
    let big = r#"{"results":[],"totalCount":70000}"#;
    assert!(matches!(decode_group_listing(big), Err(FetchError::Malformed)));
    let neg = r#"{"results":[],"totalCount":-1}"#;
    assert!(matches!(decode_group_listing(neg), Err(FetchError::Malformed)));
}

#[test]
fn decodes_cluster_listing() {
    let body = r#"{"results":[{"name":"c1"},{"name":"c2"}]}"#;
    let c = decode_cluster_listing(body).unwrap();
    assert_eq!(c.results, vec!["c1".to_string(), "c2".to_string()]);
}

#[test]
fn decodes_user_listing() {
    let body = r#"{"results":[
        {"username":"u1","scopes":[]},
        {"username":"u2","scopes":[{"name":"c1","type":"CLUSTER"}]}
    ]}"#;
    let u = decode_user_listing(body).unwrap();
    assert_eq!(u.results.len(), 2);
    assert_eq!(u.results[0].username, "u1");
    assert!(u.results[0].scopes.is_empty());
    assert_eq!(u.results[1].scopes[0].name, "c1");
    assert_eq!(u.results[1].scopes[0].kind, "CLUSTER");
}

#[test]
fn decodes_change_status() {
    let body = r#"{"changeStatus":"PENDING"}"#;
    assert_eq!(decode_change_status(body).unwrap().change_status, "PENDING");
    assert!(matches!(decode_change_status(r#"{"status":"PENDING"}"#), Err(FetchError::Malformed)));
}

#[test]
fn decodes_chart_series() {
    let body = r#"{"data":[{"timestamp":1700000000,"values":[
        {"id":"d1","name":"one","value":0.25},
        {"id":"d2","name":"two","value":1e2}
    ]}]}"#;
    let c = decode_chart_series(body).unwrap();
    assert_eq!(c.data.len(), 1);
    assert_eq!(c.data[0].timestamp, 1700000000);
    assert_eq!(c.data[0].values[0].value, "0.25");
    assert_eq!(c.data[0].values[1].value, "1e2");
}

#[test]
fn chart_timestamp_digit_bounds() {
    let ok = r#"{"data":[{"timestamp":9999999999999999999,"values":[]}]}"#;
    assert_eq!(decode_chart_series(ok).unwrap().data[0].timestamp, 9999999999999999999u64);
    let too_long = r#"{"data":[{"timestamp":99999999999999999999,"values":[]}]}"#;
    assert!(matches!(decode_chart_series(too_long), Err(FetchError::Malformed)));
    let fractional = r#"{"data":[{"timestamp":1.5,"values":[]}]}"#;
    assert!(matches!(decode_chart_series(fractional), Err(FetchError::Malformed)));
}

#[test]
fn decodes_deployment_costs() {
    let body = r#"{"total_cost":12.5,"deployments":[
        {"deployment_id":"d1","deployment_name":"n1",
         "costs":{"total":10.25,"dimensions":[{"type":"capacity","cost":9.5},{"type":"data_out","cost":0.75}]},
         "hourly_rate":0.014,
         "period":{"start":"2023-11-01T00:00:00Z","end":"2023-11-30T23:59:59Z"}}
    ]}"#;
    let c = decode_deployment_costs(body).unwrap();
    assert_eq!(c.total_cost, "12.5");
    assert_eq!(c.deployments.len(), 1);
    assert_eq!(c.deployments[0].id, "d1");
    assert_eq!(c.deployments[0].name, "n1");
    assert_eq!(c.deployments[0].costs_total, "10.25");
    assert_eq!(c.deployments[0].hourly_rate, "0.014");
    assert_eq!(c.deployments[0].dimensions[1].kind, "data_out");
    assert_eq!(c.deployments[0].dimensions[1].cost, "0.75");
    assert_eq!(c.deployments[0].period.start, "2023-11-01T00:00:00Z");
    assert_eq!(c.deployments[0].period.end, "2023-11-30T23:59:59Z");
}

#[test]
fn deployment_costs_requires_the_wire_fields() {
    // camelCase names are not this API's wire format
    let camel = r#"{"totalCost":1,"deployments":[]}"#;
    assert!(matches!(decode_deployment_costs(camel), Err(FetchError::Malformed)));
    // a deployment without its period is malformed
    let no_period = r#"{"total_cost":1,"deployments":[
        {"deployment_id":"d","deployment_name":"n",
         "costs":{"total":2,"dimensions":[]},"hourly_rate":3}
    ]}"#;
    assert!(matches!(decode_deployment_costs(no_period), Err(FetchError::Malformed)));
    // a flat costs total instead of the nested costs object is malformed
    let flat = r#"{"total_cost":1,"deployments":[
        {"deployment_id":"d","deployment_name":"n","costsTotal":2,"hourly_rate":3,
         "period":{"start":"a","end":"b"}}
    ]}"#;
    assert!(matches!(decode_deployment_costs(flat), Err(FetchError::Malformed)));
}
