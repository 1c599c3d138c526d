use json_exporter::config_file::{ConfigFile, GlobalLabel};
use json_exporter::payload::{Payload, ResolvedSelectors};
use json_exporter::payload_error::PayloadError;
use json_exporter::prom_metric::PromMetric;

/// Resolves a dotted path selector against a JSON document, the way the
/// external evaluator would, returning the raw JSON text of the sub-value.
fn resolve(doc: &str, selector: &str) -> Result<String, String> {
    let v: serde_json::Value = serde_json::from_str(doc).map_err(|e| e.to_string())?;
    if selector == "." {
        return Ok(v.to_string());
    }
    let mut cur = &v;
    for part in selector.trim_start_matches('.').split('.') {
        match cur.get(part) {
            Some(next) => cur = next,
            None => return Ok("null".to_string()),
        }
    }
    Ok(cur.to_string())
}

fn resolved_for(full_doc: &str, config: &ConfigFile) -> ResolvedSelectors {
    let global_results = match &config.global_labels {
        Some(gls) => gls.iter().map(|g| resolve(full_doc, &g.selector)).collect(),
        None => Vec::new(),
    };
    ResolvedSelectors {
        global_results,
        include_results: Vec::new(),
        include_label_results: Vec::new(),
    }
}

fn full_json_file() -> String {
    r#"{
        "environment": "production",
        "id": "xyz",
        "last_refresh_epoch": 1631046901,
        "components": {
            "network": {
                "status": "OK",
                "status_upstream": "active",
                "has_ip_addresses": true,
                "use_ip_v6": false,
                "upstream_endpoints": 54
            }
        }
    }"#
    .to_string()
}

fn json_with_numeric_values() -> String {
    r#"{
        "environment": "production",
        "id": "xyz",
        "last_refresh_epoch": 1631046901,
        "api_http_requests_total": 456,
        "http_requests": 2,
        "components": {
            "http_server": {
                "up": true
            }
        }
    }"#
    .to_string()
}

fn config_without_gauge_mapping() -> ConfigFile {
    ConfigFile {
        gauge_field: "status".to_string(),
        global_labels: Some(vec![
            GlobalLabel { name: "environment".to_string(), selector: ".environment".to_string() },
            GlobalLabel { name: "id".to_string(), selector: ".id".to_string() },
        ]),
        gauge_field_values: None,
        includes: None,
        global_prefix: None,
    }
}

fn config_with_non_existing_global_labels() -> ConfigFile {
    ConfigFile {
        gauge_field: "status".to_string(),
        global_labels: Some(vec![
            GlobalLabel {
                name: "Does not exist".to_string(),
                selector: ".does_not_exist".to_string(),
            },
            GlobalLabel { name: "id".to_string(), selector: ".id".to_string() },
        ]),
        gauge_field_values: None,
        includes: None,
        global_prefix: None,
    }
}

fn create_metrics() -> Vec<PromMetric> {
    let json_str = full_json_file();
    let scoped = resolve(&json_str, ".components").unwrap();
    let config = config_without_gauge_mapping();
    let resolved = resolved_for(&json_str, &config);
    let payload = Payload::new(scoped, config);
    payload.json_to_metrics(&resolved).unwrap()
}

#[test]
fn convert_json_object_no_entry_point() {
    let json_str = json_with_numeric_values();
    let config = config_without_gauge_mapping();
    let resolved = resolved_for(&json_str, &config);
    let payload = Payload::new(json_str, config);
    let mut payload_names = payload
        .json_to_metrics(&resolved)
        .unwrap()
        .iter()
        .map(|metric| metric.name.to_string())
        .collect::<Vec<_>>();

    payload_names.sort_by(|a, b| a.cmp(&b));

    assert_eq!(
        payload_names,
        vec!["api_http_requests_total", "http_requests", "last_refresh_epoch"]
    );
}

#[test]
fn convert_json_object_invalid_global_label_selector() {
    let json_str = json_with_numeric_values();
    let config = config_with_non_existing_global_labels();
    let resolved = resolved_for(&json_str, &config);
    let payload = Payload::new(json_str, config);
    match payload.json_to_metrics(&resolved).unwrap_err() {
        PayloadError::SelectorError(err) => {
            assert!(err.has_cause());
        },
        _ => {
            assert!(false);
        },
    }
}

#[test]
fn convert_json_object_no_entry_point_does_not_convert_child_object() {
    let json_str = json_with_numeric_values();
    let config = config_without_gauge_mapping();
    let resolved = resolved_for(&json_str, &config);
    let payload = Payload::new(json_str, config);
    let metrics = payload.json_to_metrics(&resolved).unwrap();
    let component_metric = metrics.iter().find(|m| m.name == "components");

    assert!(component_metric.is_none());
}

#[test]
fn convert_json_object_with_correct_status_field_config() {
    let metrics = create_metrics();
    assert_eq!(metrics[0].name, "network_status");
    assert_eq!(metrics[0].value, Some(1));
}

#[test]
fn convert_full_json_file_extract_global_labels() {
    let metrics = create_metrics();
    assert_eq!(metrics[0].name, "network_status");
    assert_eq!(metrics[0].value, Some(1));

    let labels = metrics[0].labels.as_ref().unwrap();

    let l1 = labels.into_iter().find(|l| l.name == "environment").unwrap();
    assert_eq!(l1.value, "production");

    let l2 = labels.into_iter().find(|l| l.name == "id").unwrap();
    assert_eq!(l2.value, "xyz");
}

#[test]
fn convert_full_json_file_extract_additional_attribute_names() {
    let metrics = create_metrics();
    let mut label_names = metrics[0]
        .labels
        .as_ref()
        .unwrap()
        .iter()
        .map(|label| label.name.to_string())
        .collect::<Vec<String>>();

    label_names.sort_by(|a, b| a.cmp(b));

    assert_eq!(
        label_names,
        vec![
            "environment",
            "has_ip_addresses",
            "id",
            "status_upstream",
            "upstream_endpoints",
            "use_ip_v6"
        ]
    );
}

#[test]
fn convert_full_json_file_extract_additional_attribute_values() {
    let metrics = create_metrics();
    let mut labels = metrics[0].labels.as_ref().unwrap().iter().collect::<Vec<_>>();

    labels.sort_by(|a, b| a.name.cmp(&b.name));

    let values = labels.iter().map(|label| label.value.to_string()).collect::<Vec<_>>();
    assert_eq!(values, vec!["production", "true", "xyz", "active", "54", "false"]);
}

#[test]
fn convert_full_json_with_root_entry_point_only_converts_numeric() {
    let json_str = full_json_file();
    let scoped = resolve(&json_str, ".").unwrap();
    let config = config_without_gauge_mapping();
    let resolved = resolved_for(&json_str, &config);
    let payload = Payload::new(scoped, config);
    let metrics = payload.json_to_metrics(&resolved).unwrap();
    assert_eq!(metrics[0].name, "last_refresh_epoch");
    assert_eq!(metrics[0].value, Some(1631046901));
}

#[test]
fn convert_full_json_with_root_entry_point_has_global_attributes() {
    let json_str = full_json_file();
    let scoped = resolve(&json_str, ".").unwrap();
    let config = config_without_gauge_mapping();
    let resolved = resolved_for(&json_str, &config);
    let payload = Payload::new(scoped, config);
    let metrics = payload.json_to_metrics(&resolved).unwrap();
    let labels = metrics[0].labels.as_ref().unwrap();

    assert_eq!(labels[0].name, "environment");
    assert_eq!(labels[1].name, "id");
}
