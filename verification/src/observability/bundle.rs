//! Bounded diagnostic bundles and Prometheus-compatible metrics.

use vstd::prelude::*;
use crate::text::{decimal_text, owned, str_eq, u64_text};
use crate::policy::lifecycle::string_views;
use crate::observability::redact::{redact_text, redacted};
use crate::observability::trace::{JsonLog, Span, log_json, span_json};
use crate::json_text::{array_of, json_array, json_quote, json_quoted};

verus! {

/// The default bundle size cap, in bytes of JSON.
pub const DEFAULT_BUNDLE_LIMIT: usize = 65536;

/// In-process counters exported as Prometheus text.
#[derive(Debug, Clone)]
pub struct MetricsRegistry {
    rows: Vec<(String, String, u64)>,
}

impl View for MetricsRegistry {
    type V = Seq<(Seq<char>, Seq<char>, u64)>;

    /// The counters: name, label and value, in first-increment order.
    closed spec fn view(&self) -> Seq<(Seq<char>, Seq<char>, u64)> {
        self.rows@.map_values(|r: (String, String, u64)| (r.0@, r.1@, r.2))
    }
}

impl Default for MetricsRegistry {
    fn default() -> (r: Self)
        ensures
            r@ == Seq::<(Seq<char>, Seq<char>, u64)>::empty(),
    {
        let r = MetricsRegistry { rows: Vec::new() };
        proof {
            assert(r@ =~= Seq::<(Seq<char>, Seq<char>, u64)>::empty());
        }
        r
    }
}

/// The index of the counter named `name` with label `label`, if any.
pub open spec fn counter_index(rows: Seq<(Seq<char>, Seq<char>, u64)>, name: Seq<char>, label: Seq<char>) -> Option<int>
    decreases rows.len(),
{
    if rows.len() == 0 {
        None
    } else {
        match counter_index(rows.drop_last(), name, label) {
            Some(k) => Some(k),
            None => if rows.last().0 == name && rows.last().1 == label {
                Some(rows.len() - 1)
            } else {
                None
            },
        }
    }
}

/// The counters after one increment of `name` with `label`: the existing counter one up,
/// or a new counter at one.
pub open spec fn incremented(rows: Seq<(Seq<char>, Seq<char>, u64)>, name: Seq<char>, label: Seq<char>) -> Seq<(Seq<char>, Seq<char>, u64)> {
    match counter_index(rows, name, label) {
        Some(k) => rows.update(k, (name, label, (rows[k].2 + 1) as u64)),
        None => rows.push((name, label, 1)),
    }
}

/// The Prometheus exposition of counters.
pub open spec fn exposition(rows: Seq<(Seq<char>, Seq<char>, u64)>) -> Seq<char>
    decreases rows.len(),
{
    if rows.len() == 0 {
        Seq::empty()
    } else {
        let r = rows.last();
        exposition(rows.drop_last()) + "# TYPE "@ + r.0 + " counter\n"@ + r.0 + "{label=\""@ + r.1 + "\"} "@ + decimal_text(r.2 as nat)
            + "\n"@
    }
}

impl MetricsRegistry {
    /// Increment the counter named `name` with label `label`, both redacted first.
    pub fn incr(&mut self, name: &str, label: &str, canaries: &Vec<String>)
        requires
            redacted(name@, string_views(canaries@)) is Some,
            redacted(label@, string_views(canaries@)) is Some,
            counter_index(
                old(self)@,
                redacted(name@, string_views(canaries@))->0,
                redacted(label@, string_views(canaries@))->0,
            ) matches Some(k) ==> old(self)@[k].2 < u64::MAX,
        ensures
            final(self)@ == incremented(
                old(self)@,
                redacted(name@, string_views(canaries@))->0,
                redacted(label@, string_views(canaries@))->0,
            ),
    {
        let rname = redact_text(name, canaries);
        let rlabel = redact_text(label, canaries);
        let ghost rows0 = self@;
        let mut k: usize = 0;
        while k < self.rows.len()
            invariant
                k <= self.rows@.len(),
                rows0 == self@,
                rows0 == old(self)@,
                self@ == self.rows@.map_values(|r: (String, String, u64)| (r.0@, r.1@, r.2)),
                rname@ == redacted(name@, string_views(canaries@))->0,
                rlabel@ == redacted(label@, string_views(canaries@))->0,
                counter_index(rows0, rname@, rlabel@) matches Some(j) ==> rows0[j].2 < u64::MAX,
                counter_index(rows0.take(k as int), rname@, rlabel@) is None,
            decreases self.rows@.len() - k,
        {
            proof {
                assert(rows0.take(k + 1).drop_last() =~= rows0.take(k as int));
                assert(rows0.take(k + 1).last() == rows0[k as int]);
            }
            if str_eq(self.rows[k].0.as_str(), rname.as_str()) && str_eq(self.rows[k].1.as_str(), rlabel.as_str()) {
                proof {
                    assert(counter_index(rows0.take(k + 1), rname@, rlabel@) == Some(k as int));
                    lemma_counter_index_prefix(rows0, k as int + 1, rname@, rlabel@);
                }
                let count = self.rows[k].2;
                let row = (rname, rlabel, count + 1);
                self.rows.set(k, row);
                proof {
                    assert(self@ =~= rows0.update(k as int, (rname@, rlabel@, (rows0[k as int].2 + 1) as u64)));
                }
                return;
            }
            k = k + 1;
        }
        proof {
            assert(rows0.take(rows0.len() as int) =~= rows0);
        }
        self.rows.push((rname, rlabel, 1));
        proof {
            assert(self@ =~= rows0.push((rname@, rlabel@, 1)));
        }
    }

    /// The Prometheus text exposition: a `# TYPE` line and a sample line per counter.
    pub fn prometheus(&self) -> (r: String)
        ensures
            r@ == exposition(self@),
    {
        let mut out = String::new();
        let ghost rows = self@;
        let mut k: usize = 0;
        proof {
            assert(out@ =~= exposition(rows.take(0)));
        }
        while k < self.rows.len()
            invariant
                k <= self.rows@.len(),
                rows == self@,
                rows == self.rows@.map_values(|r: (String, String, u64)| (r.0@, r.1@, r.2)),
                out@ == exposition(rows.take(k as int)),
            decreases self.rows@.len() - k,
        {
            let row = &self.rows[k];
            out.append("# TYPE ");
            out.append(row.0.as_str());
            out.append(" counter\n");
            out.append(row.0.as_str());
            out.append("{label=\"");
            out.append(row.1.as_str());
            out.append("\"} ");
            out.append(u64_text(row.2).as_str());
            out.append("\n");
            proof {
                assert(rows.take(k + 1).drop_last() =~= rows.take(k as int));
                assert(rows.take(k + 1).last() == rows[k as int]);
            }
            k = k + 1;
        }
        proof {
            assert(rows.take(rows.len() as int) =~= rows);
        }
        out
    }
}

/// A counter found in a prefix is found at the same place in the whole.
proof fn lemma_counter_index_prefix(rows: Seq<(Seq<char>, Seq<char>, u64)>, n: int, name: Seq<char>, label: Seq<char>)
    requires
        0 <= n <= rows.len(),
        counter_index(rows.take(n), name, label) is Some,
    ensures
        counter_index(rows, name, label) == counter_index(rows.take(n), name, label),
    decreases rows.len() - n,
{
    if n < rows.len() {
        assert(rows.take(n + 1).drop_last() =~= rows.take(n));
        lemma_counter_index_prefix(rows, n + 1, name, label);
    } else {
        assert(rows.take(n) =~= rows);
    }
}

/// An exportable diagnostic bundle: always redacted, always bounded.
#[derive(Debug, Clone)]
pub struct DiagnosticBundle {
    /// Shared correlation.
    pub correlation_id: String,
    /// Spans in order.
    pub spans: Vec<Span>,
    /// Structured logs.
    pub logs: Vec<JsonLog>,
    /// Prometheus text, redacted.
    pub metrics: String,
    /// Whether the bundle hit the size cap.
    pub truncated: bool,
}

impl DiagnosticBundle {
    /// A bundle of the spans, logs and redacted metrics, before any size cap applies.
    pub fn assemble(correlation_id: String, spans: Vec<Span>, logs: Vec<JsonLog>, metrics: &MetricsRegistry, canaries: &Vec<String>) -> (r: Self)
        requires
            redacted(exposition(metrics@), string_views(canaries@)) is Some,
        ensures
            r.correlation_id == correlation_id,
            r.spans == spans,
            r.logs == logs,
            redacted(exposition(metrics@), string_views(canaries@)) == Some(r.metrics@),
            !r.truncated,
    {
        let text = metrics.prometheus();
        DiagnosticBundle { correlation_id, spans, logs, metrics: redact_text(text.as_str(), canaries), truncated: false }
    }

    /// One step of bounding a bundle whose JSON takes `encoded_len` bytes: over the cap
    /// with logs or spans left, mark it truncated and drop the last log when there are
    /// more logs than spans, else the last span. Whether anything was dropped.
    pub fn trim_once(&mut self, encoded_len: usize, max_bytes: usize) -> (r: bool)
        ensures
            final(self).correlation_id == old(self).correlation_id,
            final(self).metrics == old(self).metrics,
            if encoded_len > max_bytes && (old(self).logs@.len() > 0 || old(self).spans@.len() > 0) {
                &&& r
                &&& final(self).truncated
                &&& if old(self).logs@.len() > old(self).spans@.len() {
                    final(self).logs@ == old(self).logs@.drop_last() && final(self).spans@ == old(self).spans@
                } else {
                    final(self).spans@ == old(self).spans@.drop_last() && final(self).logs@ == old(self).logs@
                }
            } else {
                !r && final(self).truncated == old(self).truncated && final(self).logs@ == old(self).logs@ && final(self).spans@
                    == old(self).spans@
            },
    {
        if encoded_len > max_bytes && (self.logs.len() > 0 || self.spans.len() > 0) {
            self.truncated = true;
            if self.logs.len() > self.spans.len() {
                self.logs.pop();
            } else {
                self.spans.pop();
            }
            true
        } else {
            false
        }
    }
}

/// The JSON text of a bundle: its fields in declaration order.
#[verifier::opaque]
pub open spec fn bundle_json(
    correlation_id: Seq<char>,
    spans: Seq<Span>,
    logs: Seq<JsonLog>,
    metrics: Seq<char>,
    truncated: bool,
) -> Seq<char> {
    "{\"correlation_id\":"@ + json_quoted(correlation_id) + ",\"spans\":"@ + json_array(
        spans.map_values(|s: Span| span_json(s)),
    ) + ",\"logs\":"@ + json_array(logs.map_values(|l: JsonLog| log_json(l))) + ",\"metrics\":"@ + json_quoted(
        metrics,
    ) + ",\"truncated\":"@ + (if truncated {
        "true"@
    } else {
        "false"@
    }) + "}"@
}

/// The size of a bundle's JSON, in bytes.
pub open spec fn bundle_size(
    correlation_id: Seq<char>,
    spans: Seq<Span>,
    logs: Seq<JsonLog>,
    metrics: Seq<char>,
    truncated: bool,
) -> nat {
    vstd::utf8::encode_utf8(bundle_json(correlation_id, spans, logs, metrics, truncated)).len()
}

/// The spans, logs and truncation mark of a bundle bounded to `max` bytes: while it is
/// over the cap and holds logs or spans, it is marked truncated and drops its last log
/// when there are more logs than spans, else its last span.
pub open spec fn bounded(
    correlation_id: Seq<char>,
    spans: Seq<Span>,
    logs: Seq<JsonLog>,
    metrics: Seq<char>,
    truncated: bool,
    max: nat,
) -> (Seq<Span>, Seq<JsonLog>, bool)
    decreases spans.len() + logs.len(),
{
    if bundle_size(correlation_id, spans, logs, metrics, truncated) > max && (logs.len() > 0 || spans.len() > 0) {
        if logs.len() > spans.len() {
            bounded(correlation_id, spans, logs.drop_last(), metrics, true, max)
        } else {
            bounded(correlation_id, spans.drop_last(), logs, metrics, true, max)
        }
    } else {
        (spans, logs, truncated)
    }
}

impl DiagnosticBundle {
    /// The bundle's JSON, already redacted.
    pub fn to_json(&self) -> (r: String)
        ensures
            r@ == bundle_json(self.correlation_id@, self.spans@, self.logs@, self.metrics@, self.truncated),
    {
        let ghost fs = |s: Span| span_json(s);
        let mut spans: Vec<String> = Vec::new();
        let mut i: usize = 0;
        while i < self.spans.len()
            invariant
                i <= self.spans@.len(),
                fs == (|s: Span| span_json(s)),
                string_views(spans@) == self.spans@.take(i as int).map_values(fs),
            decreases self.spans@.len() - i,
        {
            let ghost before = spans@;
            spans.push(self.spans[i].to_json());
            proof {
                assert(string_views(spans@) =~= string_views(before).push(fs(self.spans@[i as int])));
                assert(self.spans@.take(i + 1).map_values(fs) =~= self.spans@.take(i as int).map_values(fs).push(
                    fs(self.spans@[i as int]),
                ));
            }
            i = i + 1;
        }
        proof {
            assert(self.spans@.take(self.spans@.len() as int) =~= self.spans@);
        }
        let ghost fl = |l: JsonLog| log_json(l);
        let mut logs: Vec<String> = Vec::new();
        let mut k: usize = 0;
        while k < self.logs.len()
            invariant
                k <= self.logs@.len(),
                fl == (|l: JsonLog| log_json(l)),
                string_views(logs@) == self.logs@.take(k as int).map_values(fl),
            decreases self.logs@.len() - k,
        {
            let ghost before = logs@;
            logs.push(self.logs[k].bundle_json());
            proof {
                assert(string_views(logs@) =~= string_views(before).push(fl(self.logs@[k as int])));
                assert(self.logs@.take(k + 1).map_values(fl) =~= self.logs@.take(k as int).map_values(fl).push(
                    fl(self.logs@[k as int]),
                ));
            }
            k = k + 1;
        }
        proof {
            assert(self.logs@.take(self.logs@.len() as int) =~= self.logs@);
        }
        proof {
            reveal(bundle_json);
        }
        let mut out = owned("{\"correlation_id\":");
        out.append(json_quote(self.correlation_id.as_str()).as_str());
        out.append(",\"spans\":");
        out.append(array_of(&spans).as_str());
        out.append(",\"logs\":");
        out.append(array_of(&logs).as_str());
        out.append(",\"metrics\":");
        out.append(json_quote(self.metrics.as_str()).as_str());
        out.append(",\"truncated\":");
        if self.truncated {
            out.append("true");
        } else {
            out.append("false");
        }
        out.append("}");
        out
    }

    /// The size of the bundle's JSON, in bytes.
    pub fn encoded_len(&self) -> (r: usize)
        ensures
            r == bundle_size(self.correlation_id@, self.spans@, self.logs@, self.metrics@, self.truncated),
    {
        self.to_json().as_str().as_bytes().len()
    }

    /// A bundle of the spans, logs and metrics redacted of `canaries`, dropping tail logs
    /// and spans while it is over `max_bytes`.
    pub fn export(
        correlation_id: String,
        spans: Vec<Span>,
        logs: Vec<JsonLog>,
        metrics: &MetricsRegistry,
        max_bytes: usize,
        canaries: &Vec<String>,
    ) -> (r: Self)
        requires
            redacted(exposition(metrics@), string_views(canaries@)) is Some,
        ensures
            r.correlation_id == correlation_id,
            redacted(exposition(metrics@), string_views(canaries@)) == Some(r.metrics@),
            (r.spans@, r.logs@, r.truncated) == bounded(correlation_id@, spans@, logs@, r.metrics@, false, max_bytes as nat),
    {
        let ghost c = correlation_id@;
        let ghost cid = correlation_id;
        let ghost s0 = spans@;
        let ghost l0 = logs@;
        let mut bundle = DiagnosticBundle::assemble(correlation_id, spans, logs, metrics, canaries);
        let ghost m = bundle.metrics@;
        loop
            invariant
                bundle.correlation_id == cid,
                c == cid@,
                bundle.metrics@ == m,
                bounded(c, bundle.spans@, bundle.logs@, m, bundle.truncated, max_bytes as nat) == bounded(
                    c,
                    s0,
                    l0,
                    m,
                    false,
                    max_bytes as nat,
                ),
            ensures
                (bundle.spans@, bundle.logs@, bundle.truncated) == bounded(c, s0, l0, m, false, max_bytes as nat),
            decreases bundle.spans@.len() + bundle.logs@.len(),
        {
            let size = bundle.encoded_len();
            if !bundle.trim_once(size, max_bytes) {
                break;
            }
        }
        bundle
    }
}

} // verus!
