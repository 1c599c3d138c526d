//! The metric derivation engine: one pass over a scoped document under a
//! configuration.
//!
//! The caller resolves the configured entry-point selector to obtain the
//! scoped document, and resolves every configured selector (the global label
//! selectors against the original, unscoped document; the include selectors
//! and label selectors against the scoped document) through the external
//! evaluator, handing the outcomes in as [`ResolvedSelectors`]. The pass
//! parses the scoped document, which must be a JSON object; resolves the
//! global labels, each of which must be a scalar; dispatches each top-level
//! entry (objects to the object processor, numbers to a scalar metric,
//! everything else to nothing); runs the includes; and concatenates. Any
//! failure aborts the pass; an empty metric list is a valid outcome.

use vstd::prelude::*;
use vstd::string::StringExecFns;
use crate::casing::spec_snake;
use crate::casing::to_snake_case;
use crate::config_file::{ConfigFile, GlobalLabel};
use crate::custom_include::{
    includes_results_match, spec_process_includes, CustomIncludeProcessor,
};
use crate::jq::{json_scalar_value, spec_scalar_value, JqError, JqErrorModel};
use crate::json::{parse_json, spec_parse_json, Json};
use crate::json_object_processor::{
    globals_model, opt_of_labels, spec_visit, JsonObjectProcessor,
};
use crate::payload_error::{
    payload_error_of_include, spec_payload_error_of_include, PayloadError, PayloadErrorModel,
};
use crate::prom_label::{clone_labels, clone_opt_labels, labels_view, LabelModel, PromLabel};
use crate::prom_metric::{metrics_view, MetricModel, PromMetric};
use crate::selector_error::{SelectorError, SelectorErrorModel};
use crate::utils::{json_number_to_i64, spec_json_number_to_i64, spec_trim, trim_str};

verus! {

/// What resolving one global label yields: a label named as configured whose
/// value is the trimmed scalar text of the resolved value, or a selector
/// error naming the label, with the underlying failure attached.
pub open spec fn spec_global_label(gl: GlobalLabel, raw: Result<String, String>) -> Result<
    LabelModel,
    SelectorErrorModel,
> {
    match raw {
        Err(m) => Err(
            SelectorErrorModel {
                message: "Failed to fetch global metric "@ + gl.name@,
                cause: Some(JqErrorModel::Io(m@)),
            },
        ),
        Ok(text) => match spec_scalar_value(text@) {
            Ok(s) => Ok(LabelModel { name: gl.name@, value: spec_trim(s) }),
            Err(e) => Err(
                SelectorErrorModel {
                    message: "Failed to fetch global metric "@ + gl.name@,
                    cause: Some(e),
                },
            ),
        },
    }
}

/// What resolving all global labels yields: one label per configured entry,
/// in order, or the first failure.
pub open spec fn spec_global_labels(
    gls: Seq<GlobalLabel>,
    raws: Seq<Result<String, String>>,
) -> Result<Seq<LabelModel>, SelectorErrorModel>
    decreases gls.len(),
{
    if gls.len() == 0 {
        Ok(Seq::empty())
    } else {
        match spec_global_label(gls[0], raws[0]) {
            Err(e) => Err(e),
            Ok(l) => match spec_global_labels(gls.drop_first(), raws.drop_first()) {
                Err(e) => Err(e),
                Ok(rest) => Ok(seq![l] + rest),
            },
        }
    }
}

/// The scalar metric of a numeric top-level entry: named by the snake_cased
/// key, carrying the global labels; a number outside the signed 64-bit range
/// yields no metric.
pub open spec fn spec_number_metric(k: Seq<char>, v: Json, globals: Seq<LabelModel>) -> Option<
    MetricModel,
> {
    match spec_json_number_to_i64(&v) {
        Some(n) => Some(
            MetricModel { name: spec_snake(k), value: Some(n), labels: opt_of_labels(globals) },
        ),
        None => None,
    }
}

/// What one top-level entry yields: an object goes to the object processor,
/// a number becomes one scalar metric, and every other shape yields nothing.
pub open spec fn spec_entry_metrics(
    e: (String, Json),
    globals: Seq<LabelModel>,
    cfg: ConfigFile,
) -> Seq<MetricModel> {
    match e.1 {
        Json::Obj(oentries) => match spec_visit(spec_snake(e.0@), oentries@, globals, cfg) {
            Some(ms) => ms,
            None => Seq::empty(),
        },
        Json::Num(_) => match spec_number_metric(e.0@, e.1, globals) {
            Some(m) => seq![m],
            None => Seq::empty(),
        },
        _ => Seq::empty(),
    }
}

/// What the top-level entries yield, in document order.
pub open spec fn spec_top_metrics(
    entries: Seq<(String, Json)>,
    globals: Seq<LabelModel>,
    cfg: ConfigFile,
) -> Seq<MetricModel>
    decreases entries.len(),
{
    if entries.len() == 0 {
        Seq::empty()
    } else {
        spec_entry_metrics(entries[0], globals, cfg) + spec_top_metrics(
            entries.drop_first(),
            globals,
            cfg,
        )
    }
}

/// What one whole derivation pass yields: the parse of the scoped document
/// (which must be a JSON object), the global labels, the top-level metrics,
/// then the include metrics; the first failure aborts the pass.
pub open spec fn spec_json_to_metrics(
    doc: Seq<char>,
    cfg: ConfigFile,
    global_raws: Seq<Result<String, String>>,
    include_raws: Seq<Vec<Result<String, String>>>,
    label_raws: Seq<Result<String, String>>,
) -> Result<Seq<MetricModel>, PayloadErrorModel> {
    match spec_parse_json(doc) {
        None => Err(PayloadErrorModel::Json("invalid JSON"@)),
        Some(v) => match v {
            Json::Obj(entries) => {
                let globals_r = match cfg.global_labels {
                    Some(gls) => spec_global_labels(gls@, global_raws),
                    None => Ok(Seq::empty()),
                };
                match globals_r {
                    Err(e) => Err(PayloadErrorModel::Selector(e)),
                    Ok(globals) => match spec_process_includes(
                        cfg,
                        include_raws,
                        label_raws,
                        globals,
                    ) {
                        Err(e) => Err(spec_payload_error_of_include(e)),
                        Ok(ims) => Ok(spec_top_metrics(entries@, globals, cfg) + ims),
                    },
                }
            },
            _ => Err(PayloadErrorModel::Json("expected a JSON object"@)),
        },
    }
}

/// Law: one derivation pass is a function of the document text, the
/// configuration and the resolved selector outcomes alone, so deriving twice
/// from the same inputs yields identical metric sets.
pub proof fn lemma_derivation_deterministic(
    doc: Seq<char>,
    cfg: ConfigFile,
    global_raws: Seq<Result<String, String>>,
    include_raws: Seq<Vec<Result<String, String>>>,
    label_raws: Seq<Result<String, String>>,
    r1: Result<Seq<MetricModel>, PayloadErrorModel>,
    r2: Result<Seq<MetricModel>, PayloadErrorModel>,
)
    requires
        r1 == spec_json_to_metrics(doc, cfg, global_raws, include_raws, label_raws),
        r2 == spec_json_to_metrics(doc, cfg, global_raws, include_raws, label_raws),
    ensures
        r1 == r2,
{
}

proof fn lemma_global_labels_err(gls: Seq<GlobalLabel>, raws: Seq<Result<String, String>>, k: int)
    requires
        gls.len() == raws.len(),
        0 <= k < gls.len(),
        spec_global_label(gls[k], raws[k]) is Err,
    ensures
        spec_global_labels(gls, raws) is Err,
        exists|i: int|
            0 <= i < gls.len() && (#[trigger] spec_global_label(gls[i], raws[i]) matches Err(e)
                && spec_global_labels(gls, raws) == Err::<Seq<LabelModel>, SelectorErrorModel>(e)),
    decreases gls.len(),
{
    if spec_global_label(gls[0], raws[0]) is Err {
        assert(spec_global_label(gls[0], raws[0]) matches Err(e) && spec_global_labels(gls, raws)
            == Err::<Seq<LabelModel>, SelectorErrorModel>(e));
    } else {
        lemma_global_labels_err(gls.drop_first(), raws.drop_first(), k - 1);
        let i0 = choose|i: int|
            0 <= i < gls.drop_first().len() && (#[trigger] spec_global_label(
                gls.drop_first()[i],
                raws.drop_first()[i],
            ) matches Err(e) && spec_global_labels(gls.drop_first(), raws.drop_first()) == Err::<
                Seq<LabelModel>,
                SelectorErrorModel,
            >(e));
        assert(gls.drop_first()[i0] == gls[i0 + 1]);
        assert(raws.drop_first()[i0] == raws[i0 + 1]);
        assert(spec_global_label(gls[i0 + 1], raws[i0 + 1]) matches Err(e) && spec_global_labels(
            gls,
            raws,
        ) == Err::<Seq<LabelModel>, SelectorErrorModel>(e));
    }
}

/// Law: a global label whose selector outcome fails to yield a scalar (the
/// evaluator failed, the text was malformed, or the value was no scalar)
/// makes the whole pass fail: no metric list is returned; and whenever the
/// scoped document itself is a JSON object, the failure is a selector error
/// that is exactly some failing global label's error, which carries that
/// label's name in its message.
pub proof fn lemma_global_label_failure_fails_pass(
    doc: Seq<char>,
    cfg: ConfigFile,
    global_raws: Seq<Result<String, String>>,
    include_raws: Seq<Vec<Result<String, String>>>,
    label_raws: Seq<Result<String, String>>,
    k: int,
)
    requires
        cfg.global_labels is Some,
        global_raws.len() == cfg.global_labels->0@.len(),
        0 <= k < global_raws.len(),
    ensures
        spec_global_label(cfg.global_labels->0@[k], global_raws[k]) is Err
            ==> spec_json_to_metrics(doc, cfg, global_raws, include_raws, label_raws) is Err,
        (spec_global_label(cfg.global_labels->0@[k], global_raws[k]) is Err && spec_parse_json(doc)
            matches Some(Json::Obj(_))) ==> ({
            let r = spec_json_to_metrics(doc, cfg, global_raws, include_raws, label_raws);
            exists|i: int|
                0 <= i < cfg.global_labels->0@.len() && (#[trigger] spec_global_label(
                    cfg.global_labels->0@[i],
                    global_raws[i],
                ) matches Err(e) && r == Err::<Seq<MetricModel>, PayloadErrorModel>(
                    PayloadErrorModel::Selector(e),
                ))
        }),
{
    if spec_global_label(cfg.global_labels->0@[k], global_raws[k]) is Err {
        lemma_global_labels_err(cfg.global_labels->0@, global_raws, k);
    }
}

/// The evaluator outcomes of every selector one pass needs, resolved by the
/// caller ahead of the pass.
pub struct ResolvedSelectors {
    /// One outcome per configured global label, in order, resolved against
    /// the original, unscoped document.
    pub global_results: Vec<Result<String, String>>,
    /// One outcome list per configured include, one entry per selector path,
    /// resolved against the scoped document.
    pub include_results: Vec<Vec<Result<String, String>>>,
    /// One label-selector outcome per configured include, resolved against
    /// the scoped document.
    pub include_label_results: Vec<Result<String, String>>,
}

/// One derivation pass: the scoped document's text and the configuration.
pub struct Payload {
    pub payload_document: String,
    pub config: ConfigFile,
}

fn global_labels_from(
    gls: &Vec<GlobalLabel>,
    raws: &Vec<Result<String, String>>,
    j: usize,
) -> (r: Result<Vec<PromLabel>, SelectorError>)
    requires
        raws@.len() == gls@.len(),
        j <= gls@.len(),
    ensures
        match r {
            Ok(ls) => spec_global_labels(gls@.skip(j as int), raws@.skip(j as int)) == Ok::<
                Seq<LabelModel>,
                SelectorErrorModel,
            >(labels_view(ls@)),
            Err(e) => spec_global_labels(gls@.skip(j as int), raws@.skip(j as int)) == Err::<
                Seq<LabelModel>,
                SelectorErrorModel,
            >(e@),
        },
    decreases gls@.len() - j,
{
    if j == gls.len() {
        proof {
            assert(gls@.skip(j as int) =~= Seq::<GlobalLabel>::empty());
            assert(labels_view(Seq::<PromLabel>::empty()) =~= Seq::<LabelModel>::empty());
        }
        return Ok(Vec::new());
    }
    proof {
        assert(gls@.skip(j as int)[0] == gls@[j as int]);
        assert(raws@.skip(j as int)[0] == raws@[j as int]);
        assert(gls@.skip(j as int).drop_first() =~= gls@.skip(j + 1));
        assert(raws@.skip(j as int).drop_first() =~= raws@.skip(j + 1));
    }
    let gl = &gls[j];
    let label: PromLabel = match &raws[j] {
        Err(m) => {
            let mut msg = String::from_str("Failed to fetch global metric ");
            msg.append(gl.name.as_str());
            return Err(SelectorError { message: msg, cause: Some(JqError::IoError(m.clone())) });
        },
        Ok(text) => match json_scalar_value(text.as_str()) {
            Ok(s) => {
                let trimmed = trim_str(s.as_str());
                PromLabel::new(gl.name.clone(), trimmed)
            },
            Err(e) => {
                let mut msg = String::from_str("Failed to fetch global metric ");
                msg.append(gl.name.as_str());
                return Err(SelectorError { message: msg, cause: Some(e) });
            },
        },
    };
    match global_labels_from(gls, raws, j + 1) {
        Err(e) => Err(e),
        Ok(rest) => {
            let mut out: Vec<PromLabel> = Vec::new();
            out.push(label);
            let ghost head_model = labels_view(out@);
            let mut tail = rest;
            let ghost tail_model = labels_view(tail@);
            out.append(&mut tail);
            proof {
                assert(head_model =~= seq![label@]);
                assert(labels_view(out@) =~= head_model + tail_model);
            }
            Ok(out)
        },
    }
}

impl Payload {
    /// One pass over an already-scoped document under a configuration.
    pub fn new(payload_document: String, config: ConfigFile) -> (r: Self)
        ensures
            r.payload_document@ == payload_document@,
            r.config == config,
    {
        Self { payload_document, config }
    }

    /// Whether resolved selector outcomes line up with the configuration:
    /// one outcome per global label, and the include outcomes shaped as the
    /// includes are.
    pub open spec fn resolved_match(&self, resolved: ResolvedSelectors) -> bool {
        &&& match self.config.global_labels {
            Some(gls) => resolved.global_results@.len() == gls@.len(),
            None => true,
        }
        &&& includes_results_match(
            self.config,
            resolved.include_results@,
            resolved.include_label_results@,
        )
    }

    /// The global labels of one pass from their resolved outcomes; see
    /// [`spec_global_labels`].
    pub fn fetch_global_metric_labels(&self, raws: &Vec<Result<String, String>>) -> (r: Result<
        Vec<PromLabel>,
        SelectorError,
    >)
        requires
            self.config.global_labels is Some,
            raws@.len() == self.config.global_labels->0@.len(),
        ensures
            match r {
                Ok(ls) => spec_global_labels(self.config.global_labels->0@, raws@) == Ok::<
                    Seq<LabelModel>,
                    SelectorErrorModel,
                >(labels_view(ls@)),
                Err(e) => spec_global_labels(self.config.global_labels->0@, raws@) == Err::<
                    Seq<LabelModel>,
                    SelectorErrorModel,
                >(e@),
            },
    {
        let gls = self.config.global_labels.as_ref().unwrap();
        proof {
            assert(gls@.skip(0) =~= gls@);
            assert(raws@.skip(0) =~= raws@);
        }
        global_labels_from(gls, raws, 0)
    }

    /// The scalar metric of one numeric top-level entry; see
    /// [`spec_number_metric`].
    fn visit_number(&self, key: String, value: &Json, global_labels: &Option<Vec<PromLabel>>) -> (r:
        Option<PromMetric>)
        ensures
            match r {
                Some(m) => spec_number_metric(key@, *value, globals_model(*global_labels)) == Some(
                    m@,
                ),
                None => spec_number_metric(key@, *value, globals_model(*global_labels)) is None,
            },
    {
        match json_number_to_i64(value) {
            Some(num) => {
                let name = to_snake_case(key.as_str());
                let metric_labels: Option<Vec<PromLabel>> = match global_labels {
                    Some(gv) => if gv.len() > 0 {
                        Some(clone_labels(gv))
                    } else {
                        None
                    },
                    None => None,
                };
                Some(PromMetric::new(name, Some(num), metric_labels))
            },
            None => None,
        }
    }

    /// One whole derivation pass; see [`spec_json_to_metrics`].
    pub fn json_to_metrics(&self, resolved: &ResolvedSelectors) -> (r: Result<
        Vec<PromMetric>,
        PayloadError,
    >)
        requires
            self.resolved_match(*resolved),
        ensures
            match r {
                Ok(ms) => spec_json_to_metrics(
                    self.payload_document@,
                    self.config,
                    resolved.global_results@,
                    resolved.include_results@,
                    resolved.include_label_results@,
                ) == Ok::<Seq<MetricModel>, PayloadErrorModel>(metrics_view(ms@)),
                Err(e) => spec_json_to_metrics(
                    self.payload_document@,
                    self.config,
                    resolved.global_results@,
                    resolved.include_results@,
                    resolved.include_label_results@,
                ) == Err::<Seq<MetricModel>, PayloadErrorModel>(e@),
            },
    {
        let v = match parse_json(self.payload_document.as_str()) {
            Some(v) => v,
            None => {
                return Err(PayloadError::JsonError(String::from_str("invalid JSON")));
            },
        };
        let mut entries = match v {
            Json::Obj(es) => es,
            _ => {
                return Err(PayloadError::JsonError(String::from_str("expected a JSON object")));
            },
        };
        let global_labels: Option<Vec<PromLabel>> = if self.config.global_labels.is_some() {
            match self.fetch_global_metric_labels(&resolved.global_results) {
                Ok(ls) => Some(ls),
                Err(e) => {
                    return Err(PayloadError::SelectorError(e));
                },
            }
        } else {
            None
        };
        let ghost g: Seq<LabelModel> = globals_model(global_labels);
        let ghost orig_entries = entries@;
        let mut metrics: Vec<PromMetric> = Vec::new();
        proof {
            assert(metrics_view(metrics@) + spec_top_metrics(entries@, g, self.config)
                =~= spec_top_metrics(orig_entries, g, self.config));
        }
        while entries.len() > 0
            invariant
                globals_model(global_labels) == g,
                metrics_view(metrics@) + spec_top_metrics(entries@, g, self.config)
                    == spec_top_metrics(orig_entries, g, self.config),
            decreases entries@.len(),
        {
            let ghost before = entries@;
            let ghost metrics_before = metrics_view(metrics@);
            let e = entries.remove(0);
            proof {
                assert(entries@ =~= before.drop_first());
                assert(e == before[0]);
            }
            let (key, value) = e;
            if matches!(&value, Json::Obj(_)) {
                match JsonObjectProcessor::new(key, value, clone_opt_labels(&global_labels)) {
                    Some(processor) => {
                        proof {
                            assert(globals_model(processor.global_labels) =~= g);
                        }
                        match processor.visit(&self.config) {
                            Some(ms) => {
                                let mut more = ms;
                                let ghost more_model = metrics_view(more@);
                                metrics.append(&mut more);
                                proof {
                                    assert(metrics_view(metrics@) =~= metrics_before + more_model);
                                    assert(more_model == spec_entry_metrics(
                                        before[0],
                                        g,
                                        self.config,
                                    ));
                                }
                            },
                            None => {
                                proof {
                                    assert(spec_entry_metrics(before[0], g, self.config)
                                        =~= Seq::<MetricModel>::empty());
                                    assert(metrics_view(metrics@) =~= metrics_before
                                        + spec_entry_metrics(before[0], g, self.config));
                                }
                            },
                        }
                    },
                    None => {
                        proof {
                            assert(false);
                        }
                    },
                }
            } else if matches!(&value, Json::Num(_)) {
                match self.visit_number(key, &value, &global_labels) {
                    Some(m) => {
                        metrics.push(m);
                        proof {
                            assert(metrics_view(metrics@) =~= metrics_before + spec_entry_metrics(
                                before[0],
                                g,
                                self.config,
                            ));
                        }
                    },
                    None => {
                        proof {
                            assert(spec_entry_metrics(before[0], g, self.config)
                                =~= Seq::<MetricModel>::empty());
                            assert(metrics_view(metrics@) =~= metrics_before + spec_entry_metrics(
                                before[0],
                                g,
                                self.config,
                            ));
                        }
                    },
                }
            } else {
                proof {
                    assert(spec_entry_metrics(before[0], g, self.config)
                        =~= Seq::<MetricModel>::empty());
                    assert(metrics_view(metrics@) =~= metrics_before + spec_entry_metrics(
                        before[0],
                        g,
                        self.config,
                    ));
                }
            }
            proof {
                assert(spec_top_metrics(before, g, self.config) == spec_entry_metrics(
                    before[0],
                    g,
                    self.config,
                ) + spec_top_metrics(entries@, g, self.config));
                assert(metrics_view(metrics@) + spec_top_metrics(entries@, g, self.config)
                    =~= spec_top_metrics(orig_entries, g, self.config));
            }
        }
        proof {
            assert(spec_top_metrics(entries@, g, self.config) =~= Seq::<MetricModel>::empty());
            assert(metrics_view(metrics@) =~= spec_top_metrics(orig_entries, g, self.config));
        }
        let processor = CustomIncludeProcessor::new(
            &self.config,
            global_labels,
            &resolved.include_results,
            &resolved.include_label_results,
        );
        match processor.process() {
            Err(e) => Err(payload_error_of_include(e)),
            Ok(ims) => {
                let ghost tops = metrics_view(metrics@);
                let mut more = ims;
                let ghost more_model = metrics_view(more@);
                metrics.append(&mut more);
                proof {
                    assert(metrics_view(metrics@) =~= tops + more_model);
                }
                Ok(metrics)
            },
        }
    }
}

} // verus!
