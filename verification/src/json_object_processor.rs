//! The object processor: one top-level JSON object (a "component") becomes
//! zero or more metrics.
//!
//! Sibling scalar entries become labels; the configured gauge field's value
//! becomes the metric value (single-gauge mode), or one boolean metric per
//! configured candidate value (one-hot mode). An object without the gauge
//! field, or whose gauge value cannot be coerced, yields no metric: absence
//! is a valid "not applicable" case, not an error.

use vstd::prelude::*;
use vstd::string::StringExecFns;
use crate::casing::{spec_snake, to_snake_case};
use crate::config_file::ConfigFile;
use crate::json::Json;
use crate::prom_label::{clone_labels, labels_view, opt_labels_view, LabelModel, PromLabel};
use crate::prom_metric::{metrics_view, MetricModel, PromMetric};
use crate::utils::{
    json_value_to_i64, json_value_to_str, lower_ascii, spec_json_value_to_i64,
    spec_json_value_to_str, spec_to_lower, str_eq_str,
};

verus! {

/// Whether an object entry becomes a sibling label: any key other than the
/// gauge field whose value is a number, string or boolean.
pub open spec fn is_label_entry(e: (String, Json), gauge: Seq<char>) -> bool {
    e.0@ != gauge && (e.1 is Num || e.1 is Text || e.1 is Bool)
}

/// The sibling labels of an object: one per label entry, in object order,
/// named by the snake_cased key, valued by the entry's label text.
pub open spec fn spec_extract_labels(entries: Seq<(String, Json)>, gauge: Seq<char>) -> Seq<
    LabelModel,
>
    decreases entries.len(),
{
    if entries.len() == 0 {
        Seq::empty()
    } else {
        let rest = spec_extract_labels(entries.drop_last(), gauge);
        let e = entries.last();
        if is_label_entry(e, gauge) {
            rest.push(LabelModel { name: spec_snake(e.0@), value: spec_json_value_to_str(&e.1)->0 })
        } else {
            rest
        }
    }
}

/// The position of the first entry whose key is the gauge field.
pub open spec fn spec_find_gauge(entries: Seq<(String, Json)>, gauge: Seq<char>) -> Option<int>
    decreases entries.len(),
{
    if entries.len() == 0 {
        None
    } else if entries[0].0@ == gauge {
        Some(0int)
    } else {
        match spec_find_gauge(entries.drop_first(), gauge) {
            Some(i) => Some(i + 1),
            None => None,
        }
    }
}

/// A label list wrapped for a metric: an empty list means no label block.
pub open spec fn opt_of_labels(ls: Seq<LabelModel>) -> Option<Seq<LabelModel>> {
    if ls.len() == 0 {
        None
    } else {
        Some(ls)
    }
}

/// The single-gauge metric of one object: named by the snake_cased root key
/// and gauge key, valued by the gauge coercion, labeled by the global labels
/// followed by the sibling labels. No gauge entry, or a gauge value outside
/// the coercion, yields no metric.
pub open spec fn spec_single_metric(
    root_snake: Seq<char>,
    entries: Seq<(String, Json)>,
    globals: Seq<LabelModel>,
    gauge: Seq<char>,
) -> Option<MetricModel> {
    match spec_find_gauge(entries, gauge) {
        None => None,
        Some(gi) => match spec_json_value_to_i64(&entries[gi].1) {
            None => None,
            Some(v) => Some(
                MetricModel {
                    name: root_snake + "_"@ + spec_snake(gauge),
                    value: Some(v),
                    labels: opt_of_labels(globals + spec_extract_labels(entries, gauge)),
                },
            ),
        },
    }
}

/// One one-hot metric: value 1 exactly when the gauge text equals the
/// candidate after ASCII case folding, with the candidate itself appended as
/// the last label.
pub open spec fn spec_one_hot_metric(
    name: Seq<char>,
    base: Seq<LabelModel>,
    gauge: Seq<char>,
    gauge_text: Seq<char>,
    cand: Seq<char>,
) -> MetricModel {
    MetricModel {
        name: name,
        value: Some(
            if spec_to_lower(gauge_text) == spec_to_lower(cand) {
                1i64
            } else {
                0i64
            },
        ),
        labels: Some(base.push(LabelModel { name: gauge, value: cand })),
    }
}

/// The one-hot metrics of one object: one metric per candidate, in the
/// configured order.
pub open spec fn spec_multi_metrics(
    name: Seq<char>,
    base: Seq<LabelModel>,
    gauge: Seq<char>,
    gauge_text: Seq<char>,
    cands: Seq<String>,
) -> Seq<MetricModel> {
    cands.map_values(|c: String| spec_one_hot_metric(name, base, gauge, gauge_text, c@))
}

/// The full one-hot outcome: no gauge entry, or a gauge value without label
/// text, yields no metric; otherwise one metric per candidate over the
/// global and sibling labels.
pub open spec fn spec_multi_result(
    root_snake: Seq<char>,
    entries: Seq<(String, Json)>,
    globals: Seq<LabelModel>,
    gauge: Seq<char>,
    cands: Seq<String>,
) -> Option<Seq<MetricModel>> {
    match spec_find_gauge(entries, gauge) {
        None => None,
        Some(gi) => match spec_json_value_to_str(&entries[gi].1) {
            None => None,
            Some(gtext) => Some(
                spec_multi_metrics(
                    root_snake + "_"@ + spec_snake(gauge),
                    globals + spec_extract_labels(entries, gauge),
                    gauge,
                    gtext,
                    cands,
                ),
            ),
        },
    }
}

/// What the processor yields for one object under a configuration: the
/// one-hot outcome when candidate values are configured, else the single
/// gauge metric alone.
pub open spec fn spec_visit(
    root_snake: Seq<char>,
    entries: Seq<(String, Json)>,
    globals: Seq<LabelModel>,
    cfg: ConfigFile,
) -> Option<Seq<MetricModel>> {
    match cfg.gauge_field_values {
        Some(cands) => spec_multi_result(root_snake, entries, globals, cfg.gauge_field@, cands@),
        None => match spec_single_metric(root_snake, entries, globals, cfg.gauge_field@) {
            Some(m) => Some(seq![m]),
            None => None,
        },
    }
}

/// The model of the optional global label list: absent means none.
pub open spec fn globals_model(g: Option<Vec<PromLabel>>) -> Seq<LabelModel> {
    match g {
        Some(v) => labels_view(v@),
        None => Seq::empty(),
    }
}

proof fn lemma_find_gauge_prefix(entries: Seq<(String, Json)>, gauge: Seq<char>, i: int)
    requires
        0 <= i <= entries.len(),
        forall|j: int| 0 <= j < i ==> entries[j].0@ != gauge,
    ensures
        spec_find_gauge(entries, gauge) == match spec_find_gauge(entries.skip(i), gauge) {
            Some(k) => Some(i + k),
            None => None::<int>,
        },
    decreases i,
{
    if i == 0 {
        assert(entries.skip(0) =~= entries);
    } else {
        lemma_find_gauge_prefix(entries, gauge, i - 1);
        assert(entries.skip(i - 1).drop_first() =~= entries.skip(i));
        assert(entries.skip(i - 1)[0] == entries[i - 1]);
    }
}

/// The first entry whose key equals the gauge field, by position.
pub fn find_gauge(entries: &Vec<(String, Json)>, gauge: &String) -> (r: Option<usize>)
    ensures
        match r {
            Some(i) => i < entries@.len() && spec_find_gauge(entries@, gauge@) == Some(i as int),
            None => spec_find_gauge(entries@, gauge@) is None,
        },
{
    let mut i: usize = 0;
    while i < entries.len()
        invariant
            i <= entries@.len(),
            forall|j: int| 0 <= j < i ==> entries@[j].0@ != gauge@,
        decreases entries@.len() - i,
    {
        if str_eq_str(entries[i].0.as_str(), gauge.as_str()) {
            proof {
                lemma_find_gauge_prefix(entries@, gauge@, i as int);
                assert(entries@.skip(i as int)[0] == entries@[i as int]);
            }
            return Some(i);
        }
        i = i + 1;
    }
    proof {
        lemma_find_gauge_prefix(entries@, gauge@, entries@.len() as int);
        assert(entries@.skip(entries@.len() as int) =~= Seq::<(String, Json)>::empty());
    }
    None
}

/// The sibling labels of an object, in object order.
fn extract_labels(entries: &Vec<(String, Json)>, gauge: &String) -> (r: Vec<PromLabel>)
    ensures
        labels_view(r@) == spec_extract_labels(entries@, gauge@),
{
    let mut labels: Vec<PromLabel> = Vec::new();
    let mut i: usize = 0;
    while i < entries.len()
        invariant
            i <= entries@.len(),
            labels_view(labels@) =~= spec_extract_labels(entries@.take(i as int), gauge@),
        decreases entries@.len() - i,
    {
        let e = &entries[i];
        let scalar_kind = match &e.1 {
            Json::Num(_) => true,
            Json::Text(_) => true,
            Json::Bool(_) => true,
            _ => false,
        };
        if !str_eq_str(e.0.as_str(), gauge.as_str()) && scalar_kind {
            let txt = json_value_to_str(&e.1).unwrap();
            labels.push(PromLabel::new(to_snake_case(e.0.as_str()), txt));
        }
        i = i + 1;
        proof {
            assert(entries@.take(i as int).drop_last() =~= entries@.take(i - 1));
            assert(entries@.take(i as int).last() == entries@[i - 1]);
            assert(labels_view(labels@) =~= spec_extract_labels(entries@.take(i as int), gauge@));
        }
    }
    proof {
        assert(entries@.take(entries@.len() as int) =~= entries@);
    }
    labels
}

/// One metric per candidate value over a fixed label base: the one-hot
/// encoding shared by the object processor and the include processor.
pub fn one_hot_metrics(
    name: &String,
    base: &Vec<PromLabel>,
    gauge_field: &String,
    gtext: &String,
    cands: &Vec<String>,
) -> (r: Vec<PromMetric>)
    ensures
        metrics_view(r@) == spec_multi_metrics(name@, labels_view(base@), gauge_field@, gtext@, cands@),
{
    let ghost base_model: Seq<LabelModel> = labels_view(base@);
    let ghost spec_name: Seq<char> = name@;
    let gauge_low = lower_ascii(gtext.as_str());
    let mut metrics: Vec<PromMetric> = Vec::new();
    let mut ci: usize = 0;
    while ci < cands.len()
        invariant
            ci <= cands@.len(),
            labels_view(base@) == base_model,
            name@ == spec_name,
            gauge_low@ == spec_to_lower(gtext@),
            metrics@.len() == ci,
            forall|j: int|
                0 <= j < ci ==> metrics@[j]@ =~~= spec_one_hot_metric(
                    spec_name,
                    base_model,
                    gauge_field@,
                    gtext@,
                    cands@[j]@,
                ),
        decreases cands@.len() - ci,
    {
        let c = &cands[ci];
        let mut ls = clone_labels(base);
        ls.push(PromLabel::new(gauge_field.clone(), c.clone()));
        let clow = lower_ascii(c.as_str());
        let v: i64 = if str_eq_str(gauge_low.as_str(), clow.as_str()) {
            1
        } else {
            0
        };
        metrics.push(PromMetric::new(name.clone(), Some(v), Some(ls)));
        ci = ci + 1;
        proof {
            assert(labels_view(metrics@[ci - 1].labels->0@) =~~= base_model.push(
                LabelModel { name: gauge_field@, value: c@ },
            ));
            assert(metrics@[ci - 1]@ =~~= spec_one_hot_metric(
                spec_name,
                base_model,
                gauge_field@,
                gtext@,
                cands@[ci - 1]@,
            ));
        }
    }
    proof {
        let rhs = spec_multi_metrics(spec_name, base_model, gauge_field@, gtext@, cands@);
        assert forall|j: int| 0 <= j < metrics@.len() implies metrics_view(metrics@)[j] =~~= rhs[j] by {
            assert(metrics_view(metrics@)[j] == metrics@[j]@);
            assert(rhs[j] == spec_one_hot_metric(
                spec_name,
                base_model,
                gauge_field@,
                gtext@,
                cands@[j]@,
            ));
        }
        assert(metrics_view(metrics@) =~~= rhs);
    }
    metrics
}

/// Classifies one top-level object into metrics under the configured
/// extraction strategy.
pub struct JsonObjectProcessor {
    /// The snake_cased root key: the metric name prefix.
    pub root_key_name: String,
    pub global_labels: Option<Vec<PromLabel>>,
    pub child_object: Vec<(String, Json)>,
}

impl JsonObjectProcessor {
    /// Takes one top-level entry apart; a value that is not an object yields
    /// no processor.
    pub fn new(root_key_name: String, child_object: Json, global_labels: Option<Vec<PromLabel>>) -> (r:
        Option<Self>)
        ensures
            match child_object {
                Json::Obj(entries) => {
                    &&& r is Some
                    &&& r->0.root_key_name@ == spec_snake(root_key_name@)
                    &&& r->0.child_object@ == entries@
                    &&& globals_model(r->0.global_labels) == globals_model(global_labels)
                },
                _ => r is None,
            },
    {
        match child_object {
            Json::Obj(entries) => Some(
                Self {
                    root_key_name: to_snake_case(root_key_name.as_str()),
                    child_object: entries,
                    global_labels,
                },
            ),
            _ => None,
        }
    }

    /// The global labels followed by the given labels, wrapped for a metric:
    /// an empty combination means no label block.
    fn combine_labels(&self, labels: Vec<PromLabel>) -> (r: Option<Vec<PromLabel>>)
        ensures
            opt_labels_view(r) == opt_of_labels(
                globals_model(self.global_labels) + labels_view(labels@),
            ),
    {
        let ghost sib_model: Seq<LabelModel> = labels_view(labels@);
        let mut all: Vec<PromLabel> = match &self.global_labels {
            Some(g) => clone_labels(g),
            None => Vec::new(),
        };
        proof {
            assert(labels_view(all@) =~= globals_model(self.global_labels));
        }
        let ghost g_model: Seq<LabelModel> = labels_view(all@);
        let mut sibling = labels;
        all.append(&mut sibling);
        proof {
            assert(labels_view(all@) =~= g_model + sib_model);
        }
        if all.len() > 0 {
            Some(all)
        } else {
            None
        }
    }

    /// The single-gauge strategy; see [`spec_single_metric`].
    fn single_metric_strategy(&self, config: &ConfigFile) -> (r: Option<PromMetric>)
        ensures
            match r {
                Some(m) => spec_single_metric(
                    self.root_key_name@,
                    self.child_object@,
                    globals_model(self.global_labels),
                    config.gauge_field@,
                ) == Some(m@),
                None => spec_single_metric(
                    self.root_key_name@,
                    self.child_object@,
                    globals_model(self.global_labels),
                    config.gauge_field@,
                ) is None,
            },
    {
        let gi = match find_gauge(&self.child_object, &config.gauge_field) {
            Some(i) => i,
            None => {
                return None;
            },
        };
        let prom_value = match json_value_to_i64(&self.child_object[gi].1) {
            Some(v) => v,
            None => {
                return None;
            },
        };
        let labels = extract_labels(&self.child_object, &config.gauge_field);
        let mut name = self.root_key_name.clone();
        name.append("_");
        name.append(to_snake_case(config.gauge_field.as_str()).as_str());
        let metric_labels = self.combine_labels(labels);
        Some(PromMetric::new(name, Some(prom_value), metric_labels))
    }

    /// The one-hot strategy; see [`spec_multi_result`].
    fn multi_metric_strategy(&self, config: &ConfigFile) -> (r: Option<Vec<PromMetric>>)
        requires
            config.gauge_field_values is Some,
        ensures
            match r {
                Some(ms) => spec_multi_result(
                    self.root_key_name@,
                    self.child_object@,
                    globals_model(self.global_labels),
                    config.gauge_field@,
                    config.gauge_field_values->0@,
                ) == Some(metrics_view(ms@)),
                None => spec_multi_result(
                    self.root_key_name@,
                    self.child_object@,
                    globals_model(self.global_labels),
                    config.gauge_field@,
                    config.gauge_field_values->0@,
                ) is None,
            },
    {
        let cands: &Vec<String> = config.gauge_field_values.as_ref().unwrap();
        let gi = match find_gauge(&self.child_object, &config.gauge_field) {
            Some(i) => i,
            None => {
                return None;
            },
        };
        let gtext = match json_value_to_str(&self.child_object[gi].1) {
            Some(t) => t,
            None => {
                return None;
            },
        };
        let labels = extract_labels(&self.child_object, &config.gauge_field);
        let mut name = self.root_key_name.clone();
        name.append("_");
        name.append(to_snake_case(config.gauge_field.as_str()).as_str());
        let ghost sib_model: Seq<LabelModel> = labels_view(labels@);
        let mut base: Vec<PromLabel> = match &self.global_labels {
            Some(g) => clone_labels(g),
            None => Vec::new(),
        };
        proof {
            assert(labels_view(base@) =~= globals_model(self.global_labels));
        }
        let ghost g_model: Seq<LabelModel> = labels_view(base@);
        let mut sibling = labels;
        base.append(&mut sibling);
        proof {
            assert(labels_view(base@) =~= g_model + sib_model);
        }
        let metrics = one_hot_metrics(&name, &base, &config.gauge_field, &gtext, cands);
        Some(metrics)
    }

    /// Converts this object into metrics; see [`spec_visit`].
    pub fn visit(&self, config: &ConfigFile) -> (r: Option<Vec<PromMetric>>)
        ensures
            match r {
                Some(ms) => spec_visit(
                    self.root_key_name@,
                    self.child_object@,
                    globals_model(self.global_labels),
                    *config,
                ) == Some(metrics_view(ms@)),
                None => spec_visit(
                    self.root_key_name@,
                    self.child_object@,
                    globals_model(self.global_labels),
                    *config,
                ) is None,
            },
    {
        if config.has_gauge_values() {
            return self.multi_metric_strategy(config);
        }
        match self.single_metric_strategy(config) {
            Some(metric) => {
                let mut ms: Vec<PromMetric> = Vec::new();
                ms.push(metric);
                proof {
                    assert(metrics_view(ms@) =~~= seq![ms@[0]@]);
                }
                Some(ms)
            },
            None => None,
        }
    }
}

// ---- laws of the object processor ----

/// How many metrics of a set carry value 1.
pub open spec fn count_hot(ms: Seq<MetricModel>) -> nat
    decreases ms.len(),
{
    if ms.len() == 0 {
        0
    } else {
        count_hot(ms.drop_last()) + if ms.last().value == Some(1i64) {
            1nat
        } else {
            0nat
        }
    }
}

/// How many candidates match a gauge text after ASCII case folding.
pub open spec fn count_matches(gtext: Seq<char>, cands: Seq<String>) -> nat
    decreases cands.len(),
{
    if cands.len() == 0 {
        0
    } else {
        count_matches(gtext, cands.drop_last()) + if spec_to_lower(cands.last()@) == spec_to_lower(
            gtext,
        ) {
            1nat
        } else {
            0nat
        }
    }
}

proof fn lemma_count_hot_is_count_matches(
    name: Seq<char>,
    base: Seq<LabelModel>,
    gauge: Seq<char>,
    gtext: Seq<char>,
    cands: Seq<String>,
)
    ensures
        count_hot(spec_multi_metrics(name, base, gauge, gtext, cands)) == count_matches(
            gtext,
            cands,
        ),
    decreases cands.len(),
{
    let ms = spec_multi_metrics(name, base, gauge, gtext, cands);
    if cands.len() == 0 {
        assert(ms.len() == 0);
    } else {
        lemma_count_hot_is_count_matches(name, base, gauge, gtext, cands.drop_last());
        assert(ms.drop_last() =~~= spec_multi_metrics(name, base, gauge, gtext, cands.drop_last()));
        assert(ms.last() == spec_one_hot_metric(name, base, gauge, gtext, cands.last()@));
    }
}

proof fn lemma_count_matches_zero(gtext: Seq<char>, cands: Seq<String>)
    requires
        forall|j: int| 0 <= j < cands.len() ==> spec_to_lower(cands[j]@) != spec_to_lower(gtext),
    ensures
        count_matches(gtext, cands) == 0,
    decreases cands.len(),
{
    if cands.len() > 0 {
        lemma_count_matches_zero(gtext, cands.drop_last());
    }
}

proof fn lemma_count_matches_one(gtext: Seq<char>, cands: Seq<String>)
    requires
        exists|j: int| 0 <= j < cands.len() && spec_to_lower(cands[j]@) == spec_to_lower(gtext),
        forall|j: int, k: int|
            0 <= j < k < cands.len() ==> spec_to_lower(cands[j]@) != spec_to_lower(cands[k]@),
    ensures
        count_matches(gtext, cands) == 1,
    decreases cands.len(),
{
    let w = choose|j: int|
        0 <= j < cands.len() && spec_to_lower(cands[j]@) == spec_to_lower(gtext);
    if spec_to_lower(cands.last()@) == spec_to_lower(gtext) {
        assert forall|j: int|
            0 <= j < cands.drop_last().len() implies spec_to_lower(cands.drop_last()[j]@)
            != spec_to_lower(gtext) by {
            assert(spec_to_lower(cands[j]@) != spec_to_lower(cands[cands.len() - 1]@));
        }
        lemma_count_matches_zero(gtext, cands.drop_last());
    } else {
        assert(w < cands.len() - 1);
        assert(cands.drop_last()[w] == cands[w]);
        lemma_count_matches_one(gtext, cands.drop_last());
    }
}

/// Law: a JSON object lacking the configured gauge field yields no metric,
/// in either extraction mode; absence is non-fatal.
pub proof fn lemma_no_gauge_field_no_metric(
    root_snake: Seq<char>,
    entries: Seq<(String, Json)>,
    globals: Seq<LabelModel>,
    cfg: ConfigFile,
)
    requires
        forall|j: int| 0 <= j < entries.len() ==> entries[j].0@ != cfg.gauge_field@,
    ensures
        spec_visit(root_snake, entries, globals, cfg) is None,
{
    lemma_find_gauge_prefix(entries, cfg.gauge_field@, entries.len() as int);
    assert(entries.skip(entries.len() as int) =~= Seq::<(String, Json)>::empty());
}

/// Law: under a one-hot configuration with N candidate values, a qualifying
/// object yields exactly N metrics; with candidates pairwise distinct after
/// ASCII case folding, exactly one of them carries value 1 when the gauge
/// text matches some candidate, and none does when no candidate matches.
pub proof fn lemma_one_hot_counts(
    root_snake: Seq<char>,
    entries: Seq<(String, Json)>,
    globals: Seq<LabelModel>,
    cfg: ConfigFile,
    ms: Seq<MetricModel>,
)
    requires
        cfg.gauge_field_values is Some,
        spec_visit(root_snake, entries, globals, cfg) == Some(ms),
        forall|j: int, k: int|
            0 <= j < k < cfg.gauge_field_values->0@.len() ==> spec_to_lower(
                cfg.gauge_field_values->0@[j]@,
            ) != spec_to_lower(cfg.gauge_field_values->0@[k]@),
    ensures
        ms.len() == cfg.gauge_field_values->0@.len(),
        ({
            let cands = cfg.gauge_field_values->0@;
            let gi = spec_find_gauge(entries, cfg.gauge_field@)->0;
            let gtext = spec_json_value_to_str(&entries[gi].1)->0;
            &&& ((exists|j: int|
                0 <= j < cands.len() && spec_to_lower(cands[j]@) == spec_to_lower(gtext))
                ==> count_hot(ms) == 1)
            &&& ((forall|j: int|
                0 <= j < cands.len() ==> spec_to_lower(cands[j]@) != spec_to_lower(gtext))
                ==> count_hot(ms) == 0)
        }),
{
    let cands = cfg.gauge_field_values->0@;
    let gi = spec_find_gauge(entries, cfg.gauge_field@)->0;
    let gtext = spec_json_value_to_str(&entries[gi].1)->0;
    let name = root_snake + "_"@ + spec_snake(cfg.gauge_field@);
    let base = globals + spec_extract_labels(entries, cfg.gauge_field@);
    assert(ms == spec_multi_metrics(name, base, cfg.gauge_field@, gtext, cands));
    lemma_count_hot_is_count_matches(name, base, cfg.gauge_field@, gtext, cands);
    if exists|j: int| 0 <= j < cands.len() && spec_to_lower(cands[j]@) == spec_to_lower(gtext) {
        lemma_count_matches_one(gtext, cands);
    }
    if forall|j: int| 0 <= j < cands.len() ==> spec_to_lower(cands[j]@) != spec_to_lower(gtext) {
        lemma_count_matches_zero(gtext, cands);
    }
}

} // verus!
