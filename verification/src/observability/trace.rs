//! Correlated traces and structured logs.

use vstd::prelude::*;
use crate::text::{owned, str_eq};
use crate::policy::lifecycle::string_views;
use crate::observability::redact::{redact_text, redacted};
use crate::json_text::{json_optional, json_quote, json_quoted, optional_text};

verus! {

/// The services a span may name: closed, so a typo cannot invent a plane.
pub const SERVICES: [&'static str; 3] = ["runtime", "intelligence", "desktop"];

/// Whether `s` names a service.
pub open spec fn is_service(s: Seq<char>) -> bool {
    s == "runtime"@ || s == "intelligence"@ || s == "desktop"@
}

/// Correlation context propagated across service boundaries.
#[derive(Debug, Clone, PartialEq, Eq)]
pub struct Correlation {
    /// Shared id for the whole run journey.
    pub correlation_id: String,
    /// The run the journey belongs to, if any.
    pub run_id: Option<String>,
    /// Tenant scope.
    pub tenant_id: String,
    /// Plane emitting this hop.
    pub service: String,
}

impl Correlation {
    /// Start a journey on the runtime plane.
    pub fn start(correlation_id: String, tenant_id: String, run_id: Option<String>) -> (r: Self)
        ensures
            r.correlation_id == correlation_id,
            r.tenant_id == tenant_id,
            r.run_id == run_id,
            r.service@ == "runtime"@,
    {
        Correlation { correlation_id, run_id, tenant_id, service: owned("runtime") }
    }

    /// Whether `service` names a known plane.
    pub fn valid_service(service: &str) -> (r: bool)
        ensures
            r == is_service(service@),
    {
        str_eq(service, SERVICES[0]) || str_eq(service, SERVICES[1]) || str_eq(service, SERVICES[2])
    }
}

/// Continue the same correlation onto another plane; refused for an unknown plane.
pub fn continue_trace(parent: &Correlation, service: &str) -> (r: Result<Correlation, String>)
    ensures
        match r {
            Ok(c) => is_service(service@) && c.correlation_id == parent.correlation_id && c.run_id == parent.run_id && c.tenant_id
                == parent.tenant_id && c.service@ == service@,
            Err(m) => !is_service(service@) && m@ == service@ + " is not a Quansio plane"@,
        },
{
    if !Correlation::valid_service(service) {
        let mut m = owned(service);
        m.append(" is not a Quansio plane");
        return Err(m);
    }
    Ok(
        Correlation {
            correlation_id: parent.correlation_id.clone(),
            run_id: crate::text::copy_opt_string(&parent.run_id),
            tenant_id: parent.tenant_id.clone(),
            service: owned(service),
        },
    )
}

/// One span in the correlated trace.
#[derive(Debug, Clone, PartialEq, Eq)]
pub struct Span {
    /// Span identity.
    pub span_id: String,
    /// Parent span, when this is not the root.
    pub parent_span_id: Option<String>,
    /// Shared correlation.
    pub correlation_id: String,
    /// Plane.
    pub service: String,
    /// Span name, redacted.
    pub name: String,
}

impl Span {
    /// Open a root span; the name is redacted of `canaries` and credential-shaped values.
    pub fn open(correlation: &Correlation, span_id: String, name: String, canaries: &Vec<String>) -> (r: Self)
        requires
            redacted(name@, string_views(canaries@)) is Some,
        ensures
            r.span_id == span_id,
            r.parent_span_id is None,
            r.correlation_id == correlation.correlation_id,
            r.service == correlation.service,
            redacted(name@, string_views(canaries@)) == Some(r.name@),
    {
        Span {
            span_id,
            parent_span_id: None,
            correlation_id: correlation.correlation_id.clone(),
            service: correlation.service.clone(),
            name: redact_text(name.as_str(), canaries),
        }
    }

    /// A child span on `correlation`, possibly on another service.
    pub fn child(&self, correlation: &Correlation, span_id: String, name: String, canaries: &Vec<String>) -> (r: Self)
        requires
            redacted(name@, string_views(canaries@)) is Some,
        ensures
            r.span_id == span_id,
            r.parent_span_id == Some(self.span_id),
            r.correlation_id == correlation.correlation_id,
            r.service == correlation.service,
            redacted(name@, string_views(canaries@)) == Some(r.name@),
    {
        Span {
            span_id,
            parent_span_id: Some(self.span_id.clone()),
            correlation_id: correlation.correlation_id.clone(),
            service: correlation.service.clone(),
            name: redact_text(name.as_str(), canaries),
        }
    }
}

/// One structured log line.
#[derive(Debug, Clone, PartialEq, Eq)]
pub struct JsonLog {
    /// Level.
    pub level: String,
    /// Correlation.
    pub correlation_id: String,
    /// Plane.
    pub service: String,
    /// Redacted message.
    pub msg: String,
}

impl JsonLog {
    /// A log line on `correlation`; the message is redacted first.
    pub fn emit(correlation: &Correlation, level: &str, msg: &str, canaries: &Vec<String>) -> (r: Self)
        requires
            redacted(msg@, string_views(canaries@)) is Some,
        ensures
            r.level@ == level@,
            r.correlation_id == correlation.correlation_id,
            r.service == correlation.service,
            redacted(msg@, string_views(canaries@)) == Some(r.msg@),
    {
        JsonLog {
            level: owned(level),
            correlation_id: correlation.correlation_id.clone(),
            service: correlation.service.clone(),
            msg: redact_text(msg, canaries),
        }
    }
}

/// The JSON object of a span as a bundle carries it: its fields in declaration order.
pub open spec fn span_json(s: Span) -> Seq<char> {
    "{\"span_id\":"@ + json_quoted(s.span_id@) + ",\"parent_span_id\":"@ + json_optional(
        match s.parent_span_id {
            Some(p) => Some(p@),
            None => None,
        },
    ) + ",\"correlation_id\":"@ + json_quoted(s.correlation_id@) + ",\"service\":"@ + json_quoted(s.service@)
        + ",\"name\":"@ + json_quoted(s.name@) + "}"@
}

/// The JSON object of a log line as a bundle carries it: its fields in declaration order.
pub open spec fn log_json(l: JsonLog) -> Seq<char> {
    "{\"level\":"@ + json_quoted(l.level@) + ",\"correlation_id\":"@ + json_quoted(l.correlation_id@)
        + ",\"service\":"@ + json_quoted(l.service@) + ",\"msg\":"@ + json_quoted(l.msg@) + "}"@
}

/// The wire line of a log: its fields with the keys in sorted order.
pub open spec fn log_line(l: JsonLog) -> Seq<char> {
    "{\"correlation_id\":"@ + json_quoted(l.correlation_id@) + ",\"level\":"@ + json_quoted(l.level@)
        + ",\"msg\":"@ + json_quoted(l.msg@) + ",\"service\":"@ + json_quoted(l.service@) + "}"@
}

impl Span {
    /// The span's JSON object, as a bundle carries it.
    pub fn to_json(&self) -> (r: String)
        ensures
            r@ == span_json(*self),
    {
        let parent: Option<&str> = match &self.parent_span_id {
            Some(p) => Some(p.as_str()),
            None => None,
        };
        let mut out = owned("{\"span_id\":");
        out.append(json_quote(self.span_id.as_str()).as_str());
        out.append(",\"parent_span_id\":");
        out.append(optional_text(parent).as_str());
        out.append(",\"correlation_id\":");
        out.append(json_quote(self.correlation_id.as_str()).as_str());
        out.append(",\"service\":");
        out.append(json_quote(self.service.as_str()).as_str());
        out.append(",\"name\":");
        out.append(json_quote(self.name.as_str()).as_str());
        out.append("}");
        out
    }
}

impl JsonLog {
    /// The log's wire JSON line.
    pub fn to_json(&self) -> (r: String)
        ensures
            r@ == log_line(*self),
    {
        let mut out = owned("{\"correlation_id\":");
        out.append(json_quote(self.correlation_id.as_str()).as_str());
        out.append(",\"level\":");
        out.append(json_quote(self.level.as_str()).as_str());
        out.append(",\"msg\":");
        out.append(json_quote(self.msg.as_str()).as_str());
        out.append(",\"service\":");
        out.append(json_quote(self.service.as_str()).as_str());
        out.append("}");
        out
    }

    /// The log's JSON object, as a bundle carries it.
    pub fn bundle_json(&self) -> (r: String)
        ensures
            r@ == log_json(*self),
    {
        let mut out = owned("{\"level\":");
        out.append(json_quote(self.level.as_str()).as_str());
        out.append(",\"correlation_id\":");
        out.append(json_quote(self.correlation_id.as_str()).as_str());
        out.append(",\"service\":");
        out.append(json_quote(self.service.as_str()).as_str());
        out.append(",\"msg\":");
        out.append(json_quote(self.msg.as_str()).as_str());
        out.append("}");
        out
    }
}

} // verus!
