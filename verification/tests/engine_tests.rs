use json_exporter::config_file::{ConfigFile, GlobalLabel, Include};
use json_exporter::exporter::Exporter;
use json_exporter::payload::{Payload, ResolvedSelectors};
use json_exporter::payload_error::PayloadError;

fn eval_path(doc: &str, selector: &str) -> Result<String, String> {
    let v: serde_json::Value = serde_json::from_str(doc).map_err(|e| e.to_string())?;
    if selector == "." {
        return Ok(v.to_string());
    }
    let mut cur = &v;
    for part in selector.trim_start_matches('.').split('.') {
        match cur.get(part) {
            Some(next) => cur = next,
            None => return Ok("null".to_string()),
        }
    }
    Ok(cur.to_string())
}

fn bare_config(gauge_values: Option<Vec<&str>>) -> ConfigFile {
    ConfigFile {
        gauge_field: "status".to_string(),
        global_labels: None,
        gauge_field_values: gauge_values
            .map(|vs| vs.into_iter().map(|v| v.to_string()).collect()),
        includes: None,
        global_prefix: None,
    }
}

fn no_selectors() -> ResolvedSelectors {
    ResolvedSelectors {
        global_results: Vec::new(),
        include_results: Vec::new(),
        include_label_results: Vec::new(),
    }
}

#[test]
fn scenario_single_gauge_with_sibling_label() {
    let doc = r#"{"network":{"status":"OK","endpoints":54}}"#.to_string();
    let payload = Payload::new(doc, bare_config(None));
    let metrics = payload.json_to_metrics(&no_selectors()).unwrap();

    assert_eq!(metrics.len(), 1);
    assert_eq!(metrics[0].name, "network_status");
    assert_eq!(metrics[0].value, Some(1));
    let labels = metrics[0].labels.as_ref().unwrap();
    assert_eq!(labels.len(), 1);
    assert_eq!(labels[0].name, "endpoints");
    assert_eq!(labels[0].value, "54");
}

#[test]
fn scenario_one_hot_two_candidates() {
    let doc = r#"{"network":{"status":"OK","endpoints":54}}"#.to_string();
    let payload = Payload::new(doc, bare_config(Some(vec!["warning", "ok"])));
    let metrics = payload.json_to_metrics(&no_selectors()).unwrap();

    assert_eq!(metrics.len(), 2);
    assert_eq!(metrics[0].name, "network_status");
    assert_eq!(metrics[1].name, "network_status");

    let warning = metrics
        .iter()
        .find(|m| {
            m.labels.as_ref().unwrap().iter().any(|l| l.name == "status" && l.value == "warning")
        })
        .unwrap();
    assert_eq!(warning.value, Some(0));

    let ok = metrics
        .iter()
        .find(|m| {
            m.labels.as_ref().unwrap().iter().any(|l| l.name == "status" && l.value == "ok")
        })
        .unwrap();
    assert_eq!(ok.value, Some(1));
}

#[test]
fn scenario_global_label_non_scalar_fails() {
    let doc = r#"{"network":{"status":"OK"}}"#.to_string();
    let config = ConfigFile {
        gauge_field: "status".to_string(),
        global_labels: Some(vec![GlobalLabel {
            name: "region".to_string(),
            selector: ".region".to_string(),
        }]),
        gauge_field_values: None,
        includes: None,
        global_prefix: None,
    };
    let resolved = ResolvedSelectors {
        global_results: vec![Ok(r#"{"name":"eu"}"#.to_string())],
        include_results: Vec::new(),
        include_label_results: Vec::new(),
    };
    let payload = Payload::new(doc, config);
    match payload.json_to_metrics(&resolved).unwrap_err() {
        PayloadError::SelectorError(err) => {
            assert!(err.message.contains("region"));
            assert!(err.has_cause());
        },
        other => panic!("expected a selector error, got {:?}", other),
    }
}

fn backend_doc() -> String {
    r#"{
        "router": {
            "status": "Warning",
            "backend": {
                "back1": {"status": "warning"},
                "back2": {"status": "ok"}
            }
        }
    }"#
    .to_string()
}

fn include_config(selectors: Vec<&str>) -> ConfigFile {
    ConfigFile {
        gauge_field: "status".to_string(),
        global_labels: None,
        gauge_field_values: None,
        includes: Some(vec![Include {
            name: "router_backend_status".to_string(),
            selector: selectors.into_iter().map(|s| s.to_string()).collect(),
            label_name: "backend".to_string(),
            label_selector: ".router.backend".to_string(),
        }]),
        global_prefix: None,
    }
}

fn resolve_includes(doc: &str, config: &ConfigFile) -> ResolvedSelectors {
    let (include_results, include_label_results) = match &config.includes {
        Some(incs) => (
            incs.iter()
                .map(|inc| inc.selector.iter().map(|s| eval_path(doc, s)).collect())
                .collect(),
            incs.iter().map(|inc| eval_path(doc, &inc.label_selector)).collect(),
        ),
        None => (Vec::new(), Vec::new()),
    };
    ResolvedSelectors { global_results: Vec::new(), include_results, include_label_results }
}

#[test]
fn scenario_include_join_by_terminal_segment() {
    let doc = backend_doc();
    let config = include_config(vec![".router.backend.back1", ".router.backend.back2"]);
    let resolved = resolve_includes(&doc, &config);
    let payload = Payload::new(doc, config);
    let metrics = payload.json_to_metrics(&resolved).unwrap();

    // the top-level "router" object's own gauge "Warning" coerces to no
    // value, so only the include metrics appear, in path order
    assert_eq!(metrics.len(), 2);
    assert_eq!(metrics[0].name, "router_backend_status");
    assert_eq!(metrics[1].name, "router_backend_status");
    let l1 = metrics[0].labels.as_ref().unwrap();
    assert_eq!(l1[0].name, "backend");
    assert_eq!(l1[0].value, "back1");
    assert_eq!(metrics[1].labels.as_ref().unwrap()[0].value, "back2");
    // "warning" coerces to no value, rendered as 0; "ok" coerces to 1
    assert_eq!(metrics[0].value, None);
    assert_eq!(metrics[1].value, Some(1));
}

#[test]
fn scenario_include_path_without_label_key_fails() {
    let doc = backend_doc();
    let config = include_config(vec![".router.status"]);
    // ".router.status" resolves to a string, not an object: make the path
    // point at a real object whose terminal segment is no label key instead.
    let config = ConfigFile {
        includes: Some(vec![Include {
            name: "router_backend_status".to_string(),
            selector: vec![".router.backend.back1".to_string()],
            label_name: "backend".to_string(),
            label_selector: ".router".to_string(),
        }]),
        ..config
    };
    let resolved = resolve_includes(&doc, &config);
    let payload = Payload::new(doc, config);
    match payload.json_to_metrics(&resolved).unwrap_err() {
        PayloadError::SelectorError(err) => {
            assert!(err.message.contains("matches no label key"));
            assert!(err.message.contains(".router.backend.back1"));
        },
        other => panic!("expected a selector error, got {:?}", other),
    }
}

#[test]
fn include_non_object_result_is_selector_error() {
    let doc = backend_doc();
    let config = include_config(vec![".router.status"]);
    let resolved = resolve_includes(&doc, &config);
    let payload = Payload::new(doc, config);
    match payload.json_to_metrics(&resolved).unwrap_err() {
        PayloadError::SelectorError(err) => {
            assert!(err.message.contains("is not a json object"));
        },
        other => panic!("expected a selector error, got {:?}", other),
    }
}

#[test]
fn include_missing_gauge_field_is_selector_error() {
    let doc = r#"{"router":{"backend":{"back1":{"healthy": true}}}}"#.to_string();
    let config = include_config(vec![".router.backend.back1"]);
    let resolved = resolve_includes(&doc, &config);
    let payload = Payload::new(doc, config);
    match payload.json_to_metrics(&resolved).unwrap_err() {
        PayloadError::SelectorError(err) => {
            assert!(err.message.contains(".router.backend.back1.status does not exist"));
        },
        other => panic!("expected a selector error, got {:?}", other),
    }
}

#[test]
fn include_evaluator_failure_is_io_error() {
    let doc = backend_doc();
    let config = include_config(vec![".router.backend.back1"]);
    let resolved = ResolvedSelectors {
        global_results: Vec::new(),
        include_results: vec![vec![Err("evaluator exited with status 2".to_string())]],
        include_label_results: vec![eval_path(&doc, ".router.backend")],
    };
    let payload = Payload::new(doc, config);
    match payload.json_to_metrics(&resolved).unwrap_err() {
        PayloadError::IOError(m) => {
            assert_eq!(m, "evaluator exited with status 2");
        },
        other => panic!("expected an input/output error, got {:?}", other),
    }
}

#[test]
fn global_evaluator_failure_is_selector_error_with_cause() {
    let doc = r#"{"x": 1}"#.to_string();
    let config = ConfigFile {
        gauge_field: "status".to_string(),
        global_labels: Some(vec![GlobalLabel {
            name: "environment".to_string(),
            selector: ".environment".to_string(),
        }]),
        gauge_field_values: None,
        includes: None,
        global_prefix: None,
    };
    let resolved = ResolvedSelectors {
        global_results: vec![Err("no evaluator on this host".to_string())],
        include_results: Vec::new(),
        include_label_results: Vec::new(),
    };
    let payload = Payload::new(doc, config);
    match payload.json_to_metrics(&resolved).unwrap_err() {
        PayloadError::SelectorError(err) => {
            assert!(err.message.contains("environment"));
            assert!(err.has_cause());
        },
        other => panic!("expected a selector error, got {:?}", other),
    }
}

#[test]
fn malformed_document_is_json_error() {
    let payload = Payload::new("{not json".to_string(), bare_config(None));
    match payload.json_to_metrics(&no_selectors()).unwrap_err() {
        PayloadError::JsonError(_) => {},
        other => panic!("expected a JSON error, got {:?}", other),
    }
}

#[test]
fn non_object_document_is_json_error() {
    let payload = Payload::new("[1, 2, 3]".to_string(), bare_config(None));
    match payload.json_to_metrics(&no_selectors()).unwrap_err() {
        PayloadError::JsonError(_) => {},
        other => panic!("expected a JSON error, got {:?}", other),
    }
}

#[test]
fn empty_object_yields_no_metrics() {
    let payload = Payload::new("{}".to_string(), bare_config(None));
    let metrics = payload.json_to_metrics(&no_selectors()).unwrap();
    assert_eq!(metrics.len(), 0);
    let config = bare_config(None);
    let exporter = Exporter::new(&config, metrics);
    assert_eq!(exporter.generate_metrics(), "");
}

#[test]
fn deriving_twice_yields_identical_output() {
    let doc = backend_doc();
    let config = include_config(vec![".router.backend.back1", ".router.backend.back2"]);
    let resolved = resolve_includes(&doc, &config);
    let payload = Payload::new(doc, config.clone());

    let first = payload.json_to_metrics(&resolved).unwrap();
    let second = payload.json_to_metrics(&resolved).unwrap();

    let render_first = Exporter::new(&config, first).generate_metrics();
    let render_second = Exporter::new(&config, second).generate_metrics();
    assert_eq!(render_first, render_second);
}

#[test]
fn missing_gauge_field_in_component_yields_no_metric() {
    let doc = r#"{"network":{"endpoints":54,"mode":"dual"}}"#.to_string();
    let payload = Payload::new(doc, bare_config(None));
    let metrics = payload.json_to_metrics(&no_selectors()).unwrap();
    assert_eq!(metrics.len(), 0);
}

#[test]
fn one_hot_without_any_match_is_all_zero() {
    let doc = r#"{"network":{"status":"degraded"}}"#.to_string();
    let payload = Payload::new(doc, bare_config(Some(vec!["warning", "ok"])));
    let metrics = payload.json_to_metrics(&no_selectors()).unwrap();
    assert_eq!(metrics.len(), 2);
    assert_eq!(metrics[0].value, Some(0));
    assert_eq!(metrics[1].value, Some(0));
}

#[test]
fn number_beyond_signed_range_yields_no_metric() {
    let doc = r#"{"big": 18446744073709551615, "small": 3}"#.to_string();
    let payload = Payload::new(doc, bare_config(None));
    let metrics = payload.json_to_metrics(&no_selectors()).unwrap();
    assert_eq!(metrics.len(), 1);
    assert_eq!(metrics[0].name, "small");
    assert_eq!(metrics[0].value, Some(3));
}

#[test]
fn root_keys_are_snake_cased() {
    let doc = r#"{"httpServer":{"status":"ok"}}"#.to_string();
    let payload = Payload::new(doc, bare_config(None));
    let metrics = payload.json_to_metrics(&no_selectors()).unwrap();
    assert_eq!(metrics.len(), 1);
    assert_eq!(metrics[0].name, "http_server_status");
    assert_eq!(metrics[0].value, Some(1));
}
