use elastic_exporter::FetchError;
use elastic_exporter::billing::{charts_path, deployments_path, process_chart_body,
    process_costs_body};
use elastic_exporter::paths::request_uri;
use elastic_exporter::schema::{decode_deployment_costs, encode_deployment_costs};

#[test]
fn chart_window_is_the_last_hour() {
    assert_eq!(
        charts_path(3600),
        "charts?from=1970-01-01T00:00:00Z&to=1970-01-01T01:00:00Z"
    );
    assert_eq!(
        charts_path(1700000000),
        "charts?from=2023-11-14T21:13:20Z&to=2023-11-14T22:13:20Z"
    );
}

#[test]
fn costs_window_starts_at_the_month() {
    // early February 1970
    assert_eq!(deployments_path(2764800), "deployments?from=1970-02-01T00:00:00Z");
    assert_eq!(deployments_path(1700000000), "deployments?from=2023-11-01T00:00:00Z");
}

#[test]
fn joins_base_and_path() {
    assert_eq!(request_uri("https://api.example.com", "groups?itemsPerPage=500"),
        "https://api.example.com/groups?itemsPerPage=500");
}

#[test]
fn chart_body_to_emissions() {
    let body = r#"{"data":[{"timestamp":1,"values":[{"id":"d1","name":"one","value":0.25}]}]}"#;
    let ems = process_chart_body(body).unwrap();
    assert_eq!(ems.len(), 1);
    assert_eq!(ems[0].name, "hourly_rate");
    assert_eq!(ems[0].value, "0.25");
    assert!(matches!(process_chart_body("{}"), Err(FetchError::Malformed)));
    // empty chart: no metrics this pass, not an error
    assert!(process_chart_body(r#"{"data":[]}"#).unwrap().is_empty());
}

#[test]
fn costs_body_to_emissions() {
    let body = r#"{"total_cost":1,"deployments":[
        {"deployment_id":"d","deployment_name":"n","costs":{"total":2,"dimensions":[]},
         "hourly_rate":3,"period":{"start":"s","end":"e"}}
    ]}"#;
    let ems = process_costs_body(body).unwrap();
    assert_eq!(ems.len(), 2);
    assert!(matches!(process_costs_body("[]"), Err(FetchError::Malformed)));
}

#[test]
fn costs_round_trip_preserves_numeric_fields_exactly() {
    let body = r#"{"total_cost":123.45000000000002,"deployments":[
        {"deployment_id":"d1","deployment_name":"n1",
         "costs":{"total":0.30000000000000004,"dimensions":[{"type":"storage","cost":0.1},{"type":"data_out","cost":2e-7}]},
         "hourly_rate":1e-3,"period":{"start":"2023-11-01T00:00:00Z","end":"2023-11-30T23:59:59Z"}}
    ]}"#;
    let first = decode_deployment_costs(body).unwrap();
    let encoded = encode_deployment_costs(&first);
    let second = decode_deployment_costs(&encoded).unwrap();
    assert_eq!(second.total_cost, "123.45000000000002");
    assert_eq!(second.deployments[0].costs_total, "0.30000000000000004");
    assert_eq!(second.deployments[0].hourly_rate, "1e-3");
    assert_eq!(second.deployments[0].dimensions[0].cost, "0.1");
    assert_eq!(second.deployments[0].dimensions[1].cost, "2e-7");
    assert_eq!(second.deployments[0].period.start, "2023-11-01T00:00:00Z");
    // exact as float64 values too, not merely as text
    assert_eq!(
        second.total_cost.parse::<f64>().unwrap().to_bits(),
        first.total_cost.parse::<f64>().unwrap().to_bits()
    );
    assert_eq!(
        second.deployments[0].costs_total.parse::<f64>().unwrap().to_bits(),
        0.30000000000000004f64.to_bits()
    );
}

#[test]
fn encoding_writes_the_exact_tokens() {
    let body = r#"{"total_cost":1.5,"deployments":[]}"#;
    let c = decode_deployment_costs(body).unwrap();
    assert_eq!(encode_deployment_costs(&c), r#"{"total_cost":1.5,"deployments":[]}"#);
}
