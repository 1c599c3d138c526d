use json_exporter::config_file::{ConfigFile, GlobalLabel, Include};
use json_exporter::exporter::Exporter;
use json_exporter::payload::{Payload, ResolvedSelectors};

/// Resolves a dotted path selector against a JSON document, the way the
/// external evaluator would, returning the raw JSON text of the sub-value.
fn eval(doc: &str, selector: &str) -> Result<String, String> {
    let v: serde_json::Value = serde_json::from_str(doc).map_err(|e| e.to_string())?;
    if selector == "." {
        return Ok(v.to_string());
    }
    let mut cur = &v;
    for part in selector.trim_start_matches('.').split('.') {
        match cur.get(part) {
            Some(next) => cur = next,
            None => return Ok("null".to_string()),
        }
    }
    Ok(cur.to_string())
}

fn resolve_all(full_doc: &str, scoped_doc: &str, config: &ConfigFile) -> ResolvedSelectors {
    let global_results = match &config.global_labels {
        Some(gls) => gls.iter().map(|g| eval(full_doc, &g.selector)).collect(),
        None => Vec::new(),
    };
    let (include_results, include_label_results) = match &config.includes {
        Some(incs) => (
            incs.iter()
                .map(|inc| inc.selector.iter().map(|s| eval(scoped_doc, s)).collect())
                .collect(),
            incs.iter().map(|inc| eval(scoped_doc, &inc.label_selector)).collect(),
        ),
        None => (Vec::new(), Vec::new()),
    };
    ResolvedSelectors { global_results, include_results, include_label_results }
}

fn json_with_several_components() -> String {
    r#"{
        "environment": "production",
        "id": "xyz",
        "last_refresh_epoch": 1631046901,
        "components": {
            "network": {
                "status": "OK",
                "status_upstream": "active",
                "has_ip_addresses": true,
                "use_ip_v6": false,
                "upstream_endpoints": 54
            },
            "router": {
                "status": "Warning",
                "num_active_uplinks": 1,
                "num_uplinks": 2,
                "backend": {
                    "back1": {
                        "status": "warning",
                        "total_count": 2,
                        "healthy_count": 1,
                        "unhealthy_count": 1
                    },
                    "back2": {
                        "status": "warning",
                        "total_count": 2,
                        "healthy_count": 1,
                        "unhealthy_count": 1
                    }
                }
            }
        }
    }"#
    .to_string()
}

fn config_with_prefix(prefix: Option<&str>) -> ConfigFile {
    ConfigFile {
        gauge_field: "status".to_string(),
        global_labels: Some(vec![
            GlobalLabel { name: "environment".to_string(), selector: ".environment".to_string() },
            GlobalLabel { name: "id".to_string(), selector: ".id".to_string() },
        ]),
        gauge_field_values: Some(vec!["warning".to_string(), "ok".to_string()]),
        includes: Some(vec![Include {
            name: "router_backend_status".to_string(),
            selector: vec![
                ".router.backend.back1".to_string(),
                ".router.backend.back2".to_string(),
            ],
            label_name: "backend".to_string(),
            label_selector: ".router.backend".to_string(),
        }]),
        global_prefix: prefix.map(|p| p.to_string()),
    }
}

fn generate_metrics(config: &ConfigFile) -> String {
    let json_str = json_with_several_components();
    let scoped = eval(&json_str, ".components").unwrap();
    let resolved = resolve_all(&json_str, &scoped, config);
    let payload = Payload::new(scoped, config.clone());
    let metrics = payload.json_to_metrics(&resolved).unwrap();
    let exporter = Exporter::new(config, metrics);
    exporter.generate_metrics()
}

#[test]
fn export_json_without_global_prefix() {
    let config = config_with_prefix(None);
    let json_str = json_with_several_components();
    let scoped = eval(&json_str, ".components").unwrap();
    let resolved = resolve_all(&json_str, &scoped, &config);
    let payload = Payload::new(scoped, config.clone());
    let metrics = payload.json_to_metrics(&resolved).unwrap();
    let metric_name = metrics[0].name.to_string();
    let exporter = Exporter::new(&config, metrics);
    let metrics_payload = exporter.generate_metrics();
    let lines = metrics_payload.lines().collect::<Vec<_>>();

    assert!(lines[0].starts_with(&metric_name));
}

#[test]
fn export_json_with_global_prefix() {
    let config = config_with_prefix(Some("prom_test"));
    let metrics_payload = generate_metrics(&config);

    for metric in metrics_payload.lines() {
        assert!(
            metric.starts_with("prom_test"),
            "Expected metric name {} to start with prefix 'prom_test'",
            metric
        );
    }
}

#[test]
fn export_json_with_dashes_in_prefix_converts_to_snake_case() {
    let config = config_with_prefix(Some("prom-test"));
    let metrics_payload = generate_metrics(&config);

    for metric in metrics_payload.lines() {
        assert!(
            metric.starts_with("prom_test"),
            "Expected metric name {} to start with prefix 'prom_test'",
            metric
        );
    }
}

#[test]
fn export_json_global_prefix_camel_case_converts_to_snake_case() {
    let config = config_with_prefix(Some("promTest"));
    let metrics_payload = generate_metrics(&config);

    for metric in metrics_payload.lines() {
        assert!(
            metric.starts_with("prom_test"),
            "Expected metric name {} to start with prefix 'prom_test'",
            metric
        );
    }
}
