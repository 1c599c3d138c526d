//! Rendering of metrics to the text exposition format: one line per metric,
//! `name{label1="v1",label2=v2} value`, or `name value` without labels. A
//! missing metric value renders as 0. An optional global prefix, normalized
//! to snake_case, is prepended to every metric name.

use vstd::prelude::*;
use vstd::string::StringExecFns;
use crate::casing::{spec_snake, to_snake_case};
use crate::config_file::ConfigFile;
use crate::prom_label::{spec_label_render, LabelModel};
use crate::prom_metric::{metrics_view, MetricModel, PromMetric};
use crate::utils::{i64_to_dec_string, spec_i64_dec};

verus! {

/// The rendered name of a metric: the snake_cased global prefix and an
/// underscore ahead of the name, when a prefix is configured.
pub open spec fn spec_metric_name(cfg: ConfigFile, name: Seq<char>) -> Seq<char> {
    match cfg.global_prefix {
        Some(p) => spec_snake(p@) + "_"@ + name,
        None => name,
    }
}

/// The labels of one metric joined with commas, in order.
pub open spec fn spec_labels_join(ls: Seq<LabelModel>) -> Seq<char>
    decreases ls.len(),
{
    if ls.len() == 0 {
        Seq::empty()
    } else if ls.len() == 1 {
        spec_label_render(ls[0])
    } else {
        spec_labels_join(ls.drop_last()) + ","@ + spec_label_render(ls.last())
    }
}

/// One exposition line: the rendered name, the brace-wrapped labels when
/// there are any, and the value, with a missing value rendered as 0.
pub open spec fn spec_metric_line(cfg: ConfigFile, m: MetricModel) -> Seq<char> {
    let value_text = spec_i64_dec(
        match m.value {
            Some(v) => v as int,
            None => 0,
        },
    );
    match m.labels {
        None => spec_metric_name(cfg, m.name) + " "@ + value_text,
        Some(ls) => spec_metric_name(cfg, m.name) + "{"@ + spec_labels_join(ls) + "} "@
            + value_text,
    }
}

/// The full exposition text: the metric lines joined with line breaks, in
/// metric order.
pub open spec fn spec_export(cfg: ConfigFile, ms: Seq<MetricModel>) -> Seq<char>
    decreases ms.len(),
{
    if ms.len() == 0 {
        Seq::empty()
    } else if ms.len() == 1 {
        spec_metric_line(cfg, ms[0])
    } else {
        spec_export(cfg, ms.drop_last()) + "\n"@ + spec_metric_line(cfg, ms.last())
    }
}

/// Renders a derived metric set under a configuration.
pub struct Exporter<'a> {
    pub config: &'a ConfigFile,
    pub metrics: Vec<PromMetric>,
}

impl<'a> Exporter<'a> {
    pub fn new(config: &'a ConfigFile, metrics: Vec<PromMetric>) -> (r: Self)
        ensures
            r.config == config,
            r.metrics@ == metrics@,
    {
        Self { config, metrics }
    }

    /// The rendered name of one metric; see [`spec_metric_name`].
    fn metric_name(&self, metric: &PromMetric) -> (r: String)
        ensures
            r@ == spec_metric_name(*self.config, metric.name@),
    {
        match &self.config.global_prefix {
            Some(p) => {
                let mut out = to_snake_case(p.as_str());
                out.append("_");
                out.append(metric.name.as_str());
                proof {
                    assert(out@ =~= spec_metric_name(*self.config, metric.name@));
                }
                out
            },
            None => metric.name.clone(),
        }
    }

    /// One exposition line; see [`spec_metric_line`].
    pub fn metric_to_string(&self, metric: &PromMetric) -> (r: String)
        ensures
            r@ == spec_metric_line(*self.config, metric@),
    {
        let mut out = self.metric_name(metric);
        let ghost name_part: Seq<char> = out@;
        match &metric.labels {
            Some(ls) => {
                out.append("{");
                let mut i: usize = 0;
                while i < ls.len()
                    invariant
                        i <= ls@.len(),
                        out@ =~= name_part + "{"@ + spec_labels_join(
                            crate::prom_label::labels_view(ls@).take(i as int),
                        ),
                    decreases ls@.len() - i,
                {
                    if i > 0 {
                        out.append(",");
                    }
                    let rendered = ls[i].to_string();
                    out.append(rendered.as_str());
                    i = i + 1;
                    proof {
                        let lv = crate::prom_label::labels_view(ls@);
                        assert(lv.take(i as int).drop_last() =~= lv.take(i - 1));
                        assert(lv.take(i as int).last() == lv[i - 1]);
                        assert(lv[i - 1] == ls@[i - 1]@);
                        assert(out@ =~= name_part + "{"@ + spec_labels_join(lv.take(i as int)));
                    }
                }
                proof {
                    let lv = crate::prom_label::labels_view(ls@);
                    assert(lv.take(lv.len() as int) =~= lv);
                }
                out.append("} ");
            },
            None => {
                out.append(" ");
            },
        }
        let v: i64 = match metric.value {
            Some(v) => v,
            None => 0,
        };
        let vt = i64_to_dec_string(v);
        out.append(vt.as_str());
        proof {
            assert(out@ =~= spec_metric_line(*self.config, metric@));
        }
        out
    }

    /// The full exposition text of the held metrics; see [`spec_export`].
    pub fn generate_metrics(&self) -> (r: String)
        ensures
            r@ == spec_export(*self.config, metrics_view(self.metrics@)),
    {
        let mut out = String::new();
        let mut i: usize = 0;
        while i < self.metrics.len()
            invariant
                i <= self.metrics@.len(),
                out@ =~= spec_export(
                    *self.config,
                    metrics_view(self.metrics@).take(i as int),
                ),
            decreases self.metrics@.len() - i,
        {
            if i > 0 {
                out.append("\n");
            }
            let line = self.metric_to_string(&self.metrics[i]);
            out.append(line.as_str());
            i = i + 1;
            proof {
                let mv = metrics_view(self.metrics@);
                assert(mv.take(i as int).drop_last() =~= mv.take(i - 1));
                assert(mv.take(i as int).last() == mv[i - 1]);
                assert(mv[i - 1] == self.metrics@[i - 1]@);
                assert(out@ =~= spec_export(*self.config, mv.take(i as int)));
            }
        }
        proof {
            let mv = metrics_view(self.metrics@);
            assert(mv.take(mv.len() as int) =~= mv);
        }
        out
    }
}

} // verus!
