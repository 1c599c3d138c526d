//! The include processor: a named multi-selector extraction rule applied
//! against the scoped document, for nested sibling sub-objects that must each
//! yield a gauge metric joined by a discovered identifier.
//!
//! For each selector path of an include, the path's resolved value must be a
//! JSON object holding the gauge field; the include's label selector must
//! resolve to a JSON object, whose key set is the universe of candidate join
//! values. The join value is the selector path's terminal segment (the text
//! after its last dot), validated against that key set: a path whose terminal
//! segment matches no key fails the whole pass with a selector error rather
//! than being silently dropped. Any resolution failure, non-object result or
//! missing gauge field aborts the entire derivation pass.

use vstd::prelude::*;
use vstd::string::StringExecFns;
use crate::config_file::{ConfigFile, Include};
use crate::json::{parse_json, spec_parse_json, Json};
use crate::json_object_processor::{
    find_gauge, globals_model, one_hot_metrics, spec_find_gauge, spec_multi_metrics,
};
use crate::prom_label::{clone_labels, labels_view, LabelModel, PromLabel};
use crate::prom_metric::{metrics_view, MetricModel, PromMetric};
use crate::utils::{json_value_to_i64, spec_json_value_to_i64, json_value_to_str, spec_json_value_to_str};

verus! {

/// The mathematical value of a [`CustomIncludeError`].
#[verifier::ext_equal]
pub ghost enum CustomIncludeErrorModel {
    Io(Seq<char>),
    Json(Seq<char>),
    Selector(Seq<char>),
}

/// A failure while processing an include: the evaluator failed (an
/// input/output failure), a resolved text was not valid JSON, or a selector
/// led to the wrong shape.
#[derive(Clone, Debug)]
pub enum CustomIncludeError {
    IOError(String),
    JsonError(String),
    SelectorError(String),
}

impl View for CustomIncludeError {
    type V = CustomIncludeErrorModel;

    open spec fn view(&self) -> CustomIncludeErrorModel {
        match self {
            CustomIncludeError::IOError(m) => CustomIncludeErrorModel::Io(m@),
            CustomIncludeError::JsonError(m) => CustomIncludeErrorModel::Json(m@),
            CustomIncludeError::SelectorError(m) => CustomIncludeErrorModel::Selector(m@),
        }
    }
}

// ---- the join label ----

/// The terminal segment of a selector path: the text after its last dot, or
/// the whole text when it has none.
pub open spec fn spec_last_segment(s: Seq<char>) -> Seq<char>
    decreases s.len(),
{
    if s.len() == 0 {
        s
    } else if s.last() == '.' {
        Seq::empty()
    } else {
        spec_last_segment(s.drop_last()).push(s.last())
    }
}

proof fn lemma_last_segment_skip(s: Seq<char>, k: int)
    requires
        0 <= k <= s.len(),
        forall|j: int| k <= j < s.len() ==> s[j] != '.',
        k > 0 ==> s[k - 1] == '.',
    ensures
        spec_last_segment(s) == s.skip(k),
    decreases s.len(),
{
    if s.len() == 0 {
        assert(s.skip(0) =~= s);
    } else if s.last() == '.' {
        assert(k == s.len());
        assert(s.skip(k) =~= Seq::<char>::empty());
    } else {
        if k == s.len() {
            assert(false);
        }
        let t = s.drop_last();
        lemma_last_segment_skip(t, k);
        assert(t.skip(k).push(s.last()) =~= s.skip(k));
    }
}

/// The terminal segment of a selector path; see [`spec_last_segment`].
pub fn last_segment(s: &str) -> (r: String)
    ensures
        r@ == spec_last_segment(s@),
{
    let len = s.unicode_len();
    let mut start: usize = 0;
    let mut i: usize = 0;
    while i < len
        invariant
            len == s@.len(),
            i <= len,
            start <= i,
            start > 0 ==> s@[start - 1] == '.',
            forall|j: int| start <= j < i ==> s@[j] != '.',
        decreases len - i,
    {
        if s.get_char(i) == '.' {
            start = i + 1;
        }
        i = i + 1;
    }
    proof {
        lemma_last_segment_skip(s@, start as int);
        assert(s@.subrange(start as int, len as int) =~= s@.skip(start as int));
    }
    let sub = s.substring_char(start, len);
    String::from_str(sub)
}

/// Whether an object holds an entry under the given key.
pub open spec fn spec_has_key(entries: Seq<(String, Json)>, key: Seq<char>) -> bool {
    exists|j: int| 0 <= j < entries.len() && entries[j].0@ == key
}

/// See [`spec_has_key`].
fn has_key(entries: &Vec<(String, Json)>, key: &String) -> (r: bool)
    ensures
        r == spec_has_key(entries@, key@),
{
    match find_gauge(entries, key) {
        Some(i) => {
            proof {
                lemma_find_gauge_found(entries@, key@, i as int);
            }
            true
        },
        None => {
            proof {
                lemma_find_gauge_none(entries@, key@);
            }
            false
        },
    }
}

proof fn lemma_find_gauge_found(entries: Seq<(String, Json)>, key: Seq<char>, i: int)
    requires
        spec_find_gauge(entries, key) == Some(i),
    ensures
        0 <= i < entries.len() && entries[i].0@ == key,
    decreases entries.len(),
{
    if entries.len() > 0 && entries[0].0@ != key {
        lemma_find_gauge_found(entries.drop_first(), key, i - 1);
        assert(entries.drop_first()[i - 1] == entries[i]);
    }
}

proof fn lemma_find_gauge_none(entries: Seq<(String, Json)>, key: Seq<char>)
    requires
        spec_find_gauge(entries, key) is None,
    ensures
        !spec_has_key(entries, key),
    decreases entries.len(),
{
    if entries.len() > 0 {
        lemma_find_gauge_none(entries.drop_first(), key);
        assert forall|j: int| 0 <= j < entries.len() implies entries[j].0@ != key by {
            if j > 0 {
                assert(entries.drop_first()[j - 1] == entries[j]);
            }
        }
    }
}

// ---- processing of one selector path ----

/// The join label value of one selector path: the path's terminal segment,
/// when the resolved label object offers it as a key; otherwise the failure
/// that aborts the pass.
pub open spec fn spec_join_label(
    inc: Include,
    sel: String,
    label_raw: Result<String, String>,
) -> Result<Seq<char>, CustomIncludeErrorModel> {
    match label_raw {
        Err(m) => Err(CustomIncludeErrorModel::Io(m@)),
        Ok(raw) => match spec_parse_json(raw@) {
            None => Err(CustomIncludeErrorModel::Json("invalid JSON"@)),
            Some(v) => match v {
                Json::Obj(lentries) => {
                    let seg = spec_last_segment(sel@);
                    if spec_has_key(lentries@, seg) {
                        Ok(seg)
                    } else {
                        Err(
                            CustomIncludeErrorModel::Selector(
                                "Selector "@ + sel@ + " matches no label key"@,
                            ),
                        )
                    }
                },
                _ => Err(
                    CustomIncludeErrorModel::Selector(
                        "Selector "@ + inc.label_selector@ + " does not point to a valid object"@,
                    ),
                ),
            },
        },
    }
}

/// The metrics of one selector path once its gauge value and join label are
/// at hand: in one-hot mode one 0/1 metric per candidate (none when the
/// gauge value has no label text); otherwise one metric valued by the gauge
/// coercion. The labels are the global labels, then the join label, then (in
/// one-hot mode) the candidate.
pub open spec fn spec_emit(
    cfg: ConfigFile,
    inc: Include,
    gauge_value: Json,
    join: Seq<char>,
    globals: Seq<LabelModel>,
) -> Seq<MetricModel> {
    let base = globals.push(LabelModel { name: inc.label_name@, value: join });
    match cfg.gauge_field_values {
        Some(cands) => match spec_json_value_to_str(&gauge_value) {
            None => Seq::empty(),
            Some(gtext) => spec_multi_metrics(inc.name@, base, cfg.gauge_field@, gtext, cands@),
        },
        None => seq![
            MetricModel {
                name: inc.name@,
                value: spec_json_value_to_i64(&gauge_value),
                labels: Some(base),
            },
        ],
    }
}

/// What one selector path of an include yields: its metrics, or the first
/// failure among evaluator failure, malformed JSON, a non-object result, a
/// missing gauge field, and a join label failure.
pub open spec fn spec_selector_metrics(
    cfg: ConfigFile,
    inc: Include,
    sel: String,
    sel_raw: Result<String, String>,
    label_raw: Result<String, String>,
    globals: Seq<LabelModel>,
) -> Result<Seq<MetricModel>, CustomIncludeErrorModel> {
    match sel_raw {
        Err(m) => Err(CustomIncludeErrorModel::Io(m@)),
        Ok(raw) => match spec_parse_json(raw@) {
            None => Err(CustomIncludeErrorModel::Json("invalid JSON"@)),
            Some(v) => match v {
                Json::Obj(entries) => match spec_find_gauge(entries@, cfg.gauge_field@) {
                    None => Err(
                        CustomIncludeErrorModel::Selector(
                            sel@ + "."@ + cfg.gauge_field@ + " does not exist"@,
                        ),
                    ),
                    Some(gi) => match spec_join_label(inc, sel, label_raw) {
                        Err(e) => Err(e),
                        Ok(join) => Ok(spec_emit(cfg, inc, entries@[gi].1, join, globals)),
                    },
                },
                _ => Err(CustomIncludeErrorModel::Selector(sel@ + " is not a json object"@)),
            },
        },
    }
}

/// See [`spec_selector_metrics`].
fn selector_metrics(
    config: &ConfigFile,
    inc: &Include,
    sel: &String,
    sel_raw: &Result<String, String>,
    label_raw: &Result<String, String>,
    globals: &Option<Vec<PromLabel>>,
) -> (r: Result<Vec<PromMetric>, CustomIncludeError>)
    ensures
        match r {
            Ok(ms) => spec_selector_metrics(
                *config,
                *inc,
                *sel,
                *sel_raw,
                *label_raw,
                globals_model(*globals),
            ) == Ok::<Seq<MetricModel>, CustomIncludeErrorModel>(metrics_view(ms@)),
            Err(e) => spec_selector_metrics(
                *config,
                *inc,
                *sel,
                *sel_raw,
                *label_raw,
                globals_model(*globals),
            ) == Err::<Seq<MetricModel>, CustomIncludeErrorModel>(e@),
        },
{
    let raw = match sel_raw {
        Ok(s) => s,
        Err(m) => {
            return Err(CustomIncludeError::IOError(m.clone()));
        },
    };
    let v = match parse_json(raw.as_str()) {
        Some(v) => v,
        None => {
            return Err(CustomIncludeError::JsonError(String::from_str("invalid JSON")));
        },
    };
    let entries = match v {
        Json::Obj(es) => es,
        _ => {
            let mut m = sel.clone();
            m.append(" is not a json object");
            return Err(CustomIncludeError::SelectorError(m));
        },
    };
    let gi = match find_gauge(&entries, &config.gauge_field) {
        Some(i) => i,
        None => {
            let mut m = sel.clone();
            m.append(".");
            m.append(config.gauge_field.as_str());
            m.append(" does not exist");
            return Err(CustomIncludeError::SelectorError(m));
        },
    };
    let lraw = match label_raw {
        Ok(s) => s,
        Err(m) => {
            return Err(CustomIncludeError::IOError(m.clone()));
        },
    };
    let lv = match parse_json(lraw.as_str()) {
        Some(v) => v,
        None => {
            return Err(CustomIncludeError::JsonError(String::from_str("invalid JSON")));
        },
    };
    let lentries = match lv {
        Json::Obj(es) => es,
        _ => {
            let mut m = String::from_str("Selector ");
            m.append(inc.label_selector.as_str());
            m.append(" does not point to a valid object");
            return Err(CustomIncludeError::SelectorError(m));
        },
    };
    let seg = last_segment(sel.as_str());
    if !has_key(&lentries, &seg) {
        let mut m = String::from_str("Selector ");
        m.append(sel.as_str());
        m.append(" matches no label key");
        return Err(CustomIncludeError::SelectorError(m));
    }
    let mut base: Vec<PromLabel> = match globals {
        Some(g) => clone_labels(g),
        None => Vec::new(),
    };
    proof {
        assert(labels_view(base@) =~= globals_model(*globals));
    }
    base.push(PromLabel::new(inc.label_name.clone(), seg));
    proof {
        assert(labels_view(base@) =~~= globals_model(*globals).push(
            LabelModel { name: inc.label_name@, value: spec_last_segment(sel@) },
        ));
    }
    match &config.gauge_field_values {
        Some(cands) => {
            let gtext = match json_value_to_str(&entries[gi].1) {
                Some(t) => t,
                None => {
                    proof {
                        assert(metrics_view(Seq::<PromMetric>::empty())
                            =~= Seq::<MetricModel>::empty());
                    }
                    return Ok(Vec::new());
                },
            };
            let ms = one_hot_metrics(&inc.name, &base, &config.gauge_field, &gtext, cands);
            proof {
                assert(metrics_view(ms@) == spec_emit(
                    *config,
                    *inc,
                    entries@[gi as int].1,
                    spec_last_segment(sel@),
                    globals_model(*globals),
                ));
            }
            Ok(ms)
        },
        None => {
            let value = json_value_to_i64(&entries[gi].1);
            let mut ms: Vec<PromMetric> = Vec::new();
            ms.push(PromMetric::new(inc.name.clone(), value, Some(base)));
            proof {
                assert(metrics_view(ms@) =~~= spec_emit(
                    *config,
                    *inc,
                    entries@[gi as int].1,
                    spec_last_segment(sel@),
                    globals_model(*globals),
                ));
            }
            Ok(ms)
        },
    }
}

// ---- processing of one inc, then of all includes ----

/// What the remaining selector paths of an include yield: their metrics
/// concatenated in path order, or the first failure.
pub open spec fn spec_include_list(
    cfg: ConfigFile,
    inc: Include,
    sels: Seq<String>,
    raws: Seq<Result<String, String>>,
    label_raw: Result<String, String>,
    globals: Seq<LabelModel>,
) -> Result<Seq<MetricModel>, CustomIncludeErrorModel>
    decreases sels.len(),
{
    if sels.len() == 0 {
        Ok(Seq::empty())
    } else {
        match spec_selector_metrics(cfg, inc, sels[0], raws[0], label_raw, globals) {
            Err(e) => Err(e),
            Ok(ms) => match spec_include_list(
                cfg,
                inc,
                sels.drop_first(),
                raws.drop_first(),
                label_raw,
                globals,
            ) {
                Err(e) => Err(e),
                Ok(rest) => Ok(ms + rest),
            },
        }
    }
}

/// What one include yields over all its selector paths.
pub open spec fn spec_include_metrics(
    cfg: ConfigFile,
    inc: Include,
    raws: Seq<Result<String, String>>,
    label_raw: Result<String, String>,
    globals: Seq<LabelModel>,
) -> Result<Seq<MetricModel>, CustomIncludeErrorModel> {
    spec_include_list(cfg, inc, inc.selector@, raws, label_raw, globals)
}

/// Applies one include against its resolved selector results.
pub struct IncludeProcessor<'a> {
    pub config: &'a ConfigFile,
    pub inc: &'a Include,
    /// One evaluator outcome per selector path of the include, in order.
    pub sel_results: &'a Vec<Result<String, String>>,
    /// The evaluator outcome of the include's label selector.
    pub label_result: &'a Result<String, String>,
    pub global_labels: &'a Option<Vec<PromLabel>>,
}

impl<'a> IncludeProcessor<'a> {
    pub fn new(
        config: &'a ConfigFile,
        inc: &'a Include,
        sel_results: &'a Vec<Result<String, String>>,
        label_result: &'a Result<String, String>,
        global_labels: &'a Option<Vec<PromLabel>>,
    ) -> (r: Self)
        ensures
            r.config == config,
            r.inc == inc,
            r.sel_results == sel_results,
            r.label_result == label_result,
            r.global_labels == global_labels,
    {
        Self { config, inc, sel_results, label_result, global_labels }
    }

    fn create_metrics_from(&self, j: usize) -> (r: Result<Vec<PromMetric>, CustomIncludeError>)
        requires
            self.sel_results@.len() == self.inc.selector@.len(),
            j <= self.inc.selector@.len(),
        ensures
            match r {
                Ok(ms) => spec_include_list(
                    *self.config,
                    *self.inc,
                    self.inc.selector@.skip(j as int),
                    self.sel_results@.skip(j as int),
                    *self.label_result,
                    globals_model(*self.global_labels),
                ) == Ok::<Seq<MetricModel>, CustomIncludeErrorModel>(metrics_view(ms@)),
                Err(e) => spec_include_list(
                    *self.config,
                    *self.inc,
                    self.inc.selector@.skip(j as int),
                    self.sel_results@.skip(j as int),
                    *self.label_result,
                    globals_model(*self.global_labels),
                ) == Err::<Seq<MetricModel>, CustomIncludeErrorModel>(e@),
            },
        decreases self.inc.selector@.len() - j,
    {
        if j == self.inc.selector.len() {
            proof {
                assert(self.inc.selector@.skip(j as int) =~= Seq::<String>::empty());
                assert(metrics_view(Seq::<PromMetric>::empty()) =~= Seq::<MetricModel>::empty());
            }
            return Ok(Vec::new());
        }
        proof {
            assert(self.inc.selector@.skip(j as int)[0] == self.inc.selector@[j as int]);
            assert(self.sel_results@.skip(j as int)[0] == self.sel_results@[j as int]);
            assert(self.inc.selector@.skip(j as int).drop_first() =~= self.inc.selector@.skip(
                j + 1,
            ));
            assert(self.sel_results@.skip(j as int).drop_first() =~= self.sel_results@.skip(j + 1));
        }
        match selector_metrics(
            self.config,
            self.inc,
            &self.inc.selector[j],
            &self.sel_results[j],
            self.label_result,
            self.global_labels,
        ) {
            Err(e) => Err(e),
            Ok(mut ms) => match self.create_metrics_from(j + 1) {
                Err(e) => Err(e),
                Ok(mut rest) => {
                    let ghost ms_model = metrics_view(ms@);
                    let ghost rest_model = metrics_view(rest@);
                    ms.append(&mut rest);
                    proof {
                        assert(metrics_view(ms@) =~= ms_model + rest_model);
                    }
                    Ok(ms)
                },
            },
        }
    }

    /// The metrics of this include over all its selector paths, in path
    /// order; any failure aborts; see [`spec_include_metrics`].
    pub fn create_metrics(&self) -> (r: Result<Vec<PromMetric>, CustomIncludeError>)
        requires
            self.sel_results@.len() == self.inc.selector@.len(),
        ensures
            match r {
                Ok(ms) => spec_include_metrics(
                    *self.config,
                    *self.inc,
                    self.sel_results@,
                    *self.label_result,
                    globals_model(*self.global_labels),
                ) == Ok::<Seq<MetricModel>, CustomIncludeErrorModel>(metrics_view(ms@)),
                Err(e) => spec_include_metrics(
                    *self.config,
                    *self.inc,
                    self.sel_results@,
                    *self.label_result,
                    globals_model(*self.global_labels),
                ) == Err::<Seq<MetricModel>, CustomIncludeErrorModel>(e@),
            },
    {
        proof {
            assert(self.inc.selector@.skip(0) =~= self.inc.selector@);
            assert(self.sel_results@.skip(0) =~= self.sel_results@);
        }
        self.create_metrics_from(0)
    }
}

/// Law: when an include's first selector path resolves to a JSON object
/// carrying the gauge field, but the label selector's object offers no key
/// equal to that path's terminal segment, the include stage fails with a
/// selector error naming the path — never a silent omission. (An include's
/// path list is non-empty by the configuration's own invariant.)
pub proof fn lemma_unmatched_join_key_fails(
    cfg: ConfigFile,
    inc: Include,
    raws: Seq<Result<String, String>>,
    label_raw: Result<String, String>,
    globals: Seq<LabelModel>,
)
    requires
        inc.selector@.len() > 0,
        raws.len() == inc.selector@.len(),
    ensures
        ({
            let sel = inc.selector@[0];
            ({
                &&& raws[0] matches Ok(raw)
                &&& spec_parse_json(raw@) matches Some(Json::Obj(es))
                &&& spec_find_gauge(es@, cfg.gauge_field@) is Some
                &&& label_raw matches Ok(lraw)
                &&& spec_parse_json(lraw@) matches Some(Json::Obj(ls))
                &&& !spec_has_key(ls@, spec_last_segment(sel@))
            }) ==> spec_include_metrics(cfg, inc, raws, label_raw, globals) == Err::<
                Seq<MetricModel>,
                CustomIncludeErrorModel,
            >(CustomIncludeErrorModel::Selector("Selector "@ + sel@ + " matches no label key"@))
        }),
{
    let sel = inc.selector@[0];
    let err = CustomIncludeErrorModel::Selector("Selector "@ + sel@ + " matches no label key"@);
    match raws[0] {
        Ok(raw) => match spec_parse_json(raw@) {
            Some(Json::Obj(es)) => {
                if spec_find_gauge(es@, cfg.gauge_field@) is Some {
                    match label_raw {
                        Ok(lraw) => match spec_parse_json(lraw@) {
                            Some(Json::Obj(ls)) => {
                                if !spec_has_key(ls@, spec_last_segment(sel@)) {
                                    assert(spec_join_label(inc, sel, label_raw) == Err::<
                                        Seq<char>,
                                        CustomIncludeErrorModel,
                                    >(err));
                                    assert(spec_selector_metrics(
                                        cfg,
                                        inc,
                                        sel,
                                        raws[0],
                                        label_raw,
                                        globals,
                                    ) == Err::<Seq<MetricModel>, CustomIncludeErrorModel>(err));
                                }
                            },
                            _ => {},
                        },
                        _ => {},
                    }
                }
            },
            _ => {},
        },
        _ => {},
    }
}

/// What all configured includes yield: their metrics concatenated in
/// declaration order, or the first failure; no includes means no metrics.
pub open spec fn spec_includes_list(
    cfg: ConfigFile,
    incs: Seq<Include>,
    all_raws: Seq<Vec<Result<String, String>>>,
    label_raws: Seq<Result<String, String>>,
    globals: Seq<LabelModel>,
) -> Result<Seq<MetricModel>, CustomIncludeErrorModel>
    decreases incs.len(),
{
    if incs.len() == 0 {
        Ok(Seq::empty())
    } else {
        match spec_include_metrics(cfg, incs[0], all_raws[0]@, label_raws[0], globals) {
            Err(e) => Err(e),
            Ok(ms) => match spec_includes_list(
                cfg,
                incs.drop_first(),
                all_raws.drop_first(),
                label_raws.drop_first(),
                globals,
            ) {
                Err(e) => Err(e),
                Ok(rest) => Ok(ms + rest),
            },
        }
    }
}

/// What the whole include stage yields under a configuration.
pub open spec fn spec_process_includes(
    cfg: ConfigFile,
    all_raws: Seq<Vec<Result<String, String>>>,
    label_raws: Seq<Result<String, String>>,
    globals: Seq<LabelModel>,
) -> Result<Seq<MetricModel>, CustomIncludeErrorModel> {
    match cfg.includes {
        None => Ok(Seq::empty()),
        Some(incs) => spec_includes_list(cfg, incs@, all_raws, label_raws, globals),
    }
}

/// Whether resolved include results line up with the configured includes:
/// one result list per include with one entry per selector path, and one
/// label-selector result per include.
pub open spec fn includes_results_match(
    cfg: ConfigFile,
    all_raws: Seq<Vec<Result<String, String>>>,
    label_raws: Seq<Result<String, String>>,
) -> bool {
    match cfg.includes {
        None => true,
        Some(incs) => {
            &&& all_raws.len() == incs@.len()
            &&& label_raws.len() == incs@.len()
            &&& forall|j: int|
                0 <= j < incs@.len() ==> all_raws[j]@.len() == incs@[j].selector@.len()
        },
    }
}

/// Runs every configured include against its resolved selector results.
pub struct CustomIncludeProcessor<'a> {
    pub config: &'a ConfigFile,
    pub global_labels: Option<Vec<PromLabel>>,
    /// One evaluator outcome list per configured include, in declaration
    /// order, one entry per selector path.
    pub include_results: &'a Vec<Vec<Result<String, String>>>,
    /// One label-selector evaluator outcome per configured include.
    pub label_results: &'a Vec<Result<String, String>>,
}

impl<'a> CustomIncludeProcessor<'a> {
    pub fn new(
        config: &'a ConfigFile,
        global_labels: Option<Vec<PromLabel>>,
        include_results: &'a Vec<Vec<Result<String, String>>>,
        label_results: &'a Vec<Result<String, String>>,
    ) -> (r: Self)
        ensures
            r.config == config,
            globals_model(r.global_labels) == globals_model(global_labels),
            r.include_results@ == include_results@,
            r.label_results@ == label_results@,
    {
        Self { config, global_labels, include_results, label_results }
    }

    fn process_from(&self, j: usize) -> (r: Result<Vec<PromMetric>, CustomIncludeError>)
        requires
            self.config.includes is Some,
            includes_results_match(*self.config, self.include_results@, self.label_results@),
            j <= self.config.includes->0@.len(),
        ensures
            match r {
                Ok(ms) => spec_includes_list(
                    *self.config,
                    self.config.includes->0@.skip(j as int),
                    self.include_results@.skip(j as int),
                    self.label_results@.skip(j as int),
                    globals_model(self.global_labels),
                ) == Ok::<Seq<MetricModel>, CustomIncludeErrorModel>(metrics_view(ms@)),
                Err(e) => spec_includes_list(
                    *self.config,
                    self.config.includes->0@.skip(j as int),
                    self.include_results@.skip(j as int),
                    self.label_results@.skip(j as int),
                    globals_model(self.global_labels),
                ) == Err::<Seq<MetricModel>, CustomIncludeErrorModel>(e@),
            },
        decreases self.config.includes->0@.len() - j,
    {
        let incs: &Vec<Include> = self.config.includes.as_ref().unwrap();
        if j == incs.len() {
            proof {
                assert(self.config.includes->0@.skip(j as int) =~= Seq::<Include>::empty());
                assert(metrics_view(Seq::<PromMetric>::empty()) =~= Seq::<MetricModel>::empty());
            }
            return Ok(Vec::new());
        }
        proof {
            assert(self.config.includes->0@.skip(j as int)[0] == self.config.includes->0@[j as int]);
            assert(self.include_results@.skip(j as int)[0] == self.include_results@[j as int]);
            assert(self.label_results@.skip(j as int)[0] == self.label_results@[j as int]);
            assert(self.config.includes->0@.skip(j as int).drop_first()
                =~= self.config.includes->0@.skip(j + 1));
            assert(self.include_results@.skip(j as int).drop_first() =~= self.include_results@.skip(
                j + 1,
            ));
            assert(self.label_results@.skip(j as int).drop_first() =~= self.label_results@.skip(
                j + 1,
            ));
        }
        let processor = IncludeProcessor::new(
            self.config,
            &incs[j],
            &self.include_results[j],
            &self.label_results[j],
            &self.global_labels,
        );
        match processor.create_metrics() {
            Err(e) => Err(e),
            Ok(mut ms) => match self.process_from(j + 1) {
                Err(e) => Err(e),
                Ok(mut rest) => {
                    let ghost ms_model = metrics_view(ms@);
                    let ghost rest_model = metrics_view(rest@);
                    ms.append(&mut rest);
                    proof {
                        assert(metrics_view(ms@) =~= ms_model + rest_model);
                    }
                    Ok(ms)
                },
            },
        }
    }

    /// The metrics of every configured include, in declaration order then
    /// path order; any failure aborts; see [`spec_process_includes`].
    pub fn process(&self) -> (r: Result<Vec<PromMetric>, CustomIncludeError>)
        requires
            includes_results_match(*self.config, self.include_results@, self.label_results@),
        ensures
            match r {
                Ok(ms) => spec_process_includes(
                    *self.config,
                    self.include_results@,
                    self.label_results@,
                    globals_model(self.global_labels),
                ) == Ok::<Seq<MetricModel>, CustomIncludeErrorModel>(metrics_view(ms@)),
                Err(e) => spec_process_includes(
                    *self.config,
                    self.include_results@,
                    self.label_results@,
                    globals_model(self.global_labels),
                ) == Err::<Seq<MetricModel>, CustomIncludeErrorModel>(e@),
            },
    {
        if self.config.includes.is_some() {
            proof {
                assert(self.config.includes->0@.skip(0) =~= self.config.includes->0@);
                assert(self.include_results@.skip(0) =~= self.include_results@);
                assert(self.label_results@.skip(0) =~= self.label_results@);
            }
            self.process_from(0)
        } else {
            proof {
                assert(metrics_view(Seq::<PromMetric>::empty()) =~= Seq::<MetricModel>::empty());
            }
            Ok(Vec::new())
        }
    }
}

} // verus!
