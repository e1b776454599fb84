//! The callback payload, and the acknowledgement that answers it.

use vstd::prelude::*;

verus! {

/// HTTP status of every acknowledgement.
pub const STATUS_OK: u16 = 200;

/// The point of the router's request lifecycle at which a callback was sent.
#[derive(Debug, Clone, Copy, PartialEq, Eq, Structural)]
pub enum Stage {
    RouterRequest,
    RouterResponse,
}

/// The value of one context attribute, as far as the sink reads it.
#[derive(Debug, Clone)]
pub enum ContextValue {
    /// A JSON string.
    Text(String),
    /// Any other JSON value.
    Other,
}

/// One attribute of a callback's context.
#[derive(Debug, Clone)]
pub struct ContextEntry {
    pub key: String,
    pub value: ContextValue,
}

/// The context of a callback: a mapping from attribute name to value, held as
/// a list in which a later entry replaces an earlier one of the same name.
#[derive(Debug, Clone)]
pub struct CoprocessorRequestContext {
    pub entries: Vec<ContextEntry>,
}

/// One header of the routed request, with its values in order.
#[derive(Debug, Clone)]
pub struct Header {
    pub name: String,
    pub values: Vec<String>,
}

/// A lifecycle callback as the router sends it.
#[derive(Debug, Clone)]
pub struct CoprocessorRequest {
    pub id: String,
    pub version: u16,
    pub stage: Stage,
    pub headers: Option<Vec<Header>>,
    pub context: Option<CoprocessorRequestContext>,
    pub status_code: Option<u16>,
}

/// The body that tells the router to go on.
#[derive(Debug, Clone)]
pub struct Acknowledgement {
    pub id: String,
    pub version: u16,
    pub stage: Stage,
    pub control: String,
}

/// What the ingest endpoint answers: a status and a body.
#[derive(Debug, Clone)]
pub struct HandlerResponse {
    pub status: u16,
    pub body: Acknowledgement,
}

/// Name of a stage on the wire.
pub open spec fn stage_name(stage: Stage) -> Seq<char> {
    match stage {
        Stage::RouterRequest => "RouterRequest"@,
        Stage::RouterResponse => "RouterResponse"@,
    }
}

/// The control word of every acknowledgement.
pub open spec fn control_word() -> Seq<char> {
    "continue"@
}

/// The text of a context value, if it is a string.
pub open spec fn value_text(value: ContextValue) -> Option<Seq<char>> {
    match value {
        ContextValue::Text(s) => Some(s@),
        ContextValue::Other => None,
    }
}

/// The value that `entries` maps `key` to: that of the last entry named `key`.
pub open spec fn lookup(entries: Seq<ContextEntry>, key: Seq<char>) -> Option<ContextValue>
    decreases entries.len(),
{
    if entries.len() == 0 {
        None
    } else if entries.last().key@ == key {
        Some(entries.last().value)
    } else {
        lookup(entries.drop_last(), key)
    }
}

/// The string that a callback's context gives for `key`: `None` when the
/// callback has no context, the context has no such attribute, or the
/// attribute is not a string.
pub open spec fn text_attribute(context: Option<CoprocessorRequestContext>, key: Seq<char>) -> Option<
    Seq<char>,
> {
    match context {
        Some(c) => match lookup(c.entries@, key) {
            Some(value) => value_text(value),
            None => None,
        },
        None => None,
    }
}

impl Stage {
    /// The enumerator's name, as it is written on the wire.
    pub fn name(&self) -> (name: String)
        ensures
            name@ == stage_name(*self),
    {
        match self {
            Stage::RouterRequest => "RouterRequest".to_string(),
            Stage::RouterResponse => "RouterResponse".to_string(),
        }
    }
}

impl CoprocessorRequestContext {
    /// The string stored under `key`, if there is one.
    pub fn text(&self, key: &String) -> (text: Option<String>)
        ensures
            text.is_some() == text_attribute(Some(*self), key@).is_some(),
            text matches Some(s) ==> Some(s@) == text_attribute(Some(*self), key@),
    {
        let mut i: usize = self.entries.len();
        proof {
            assert(self.entries@.take(i as int) =~= self.entries@);
        }
        while i > 0
            invariant
                i <= self.entries.len(),
                lookup(self.entries@, key@) == lookup(self.entries@.take(i as int), key@),
            decreases i,
        {
            i = i - 1;
            proof {
                let prefix = self.entries@.take(i + 1);
                assert(prefix.last() == self.entries@[i as int]);
                assert(prefix.drop_last() =~= self.entries@.take(i as int));
            }
            if self.entries[i].key == *key {
                return match &self.entries[i].value {
                    ContextValue::Text(s) => Some(s.clone()),
                    ContextValue::Other => None,
                };
            }
        }
        proof {
            assert(self.entries@.take(0).len() == 0);
        }
        None
    }
}

impl CoprocessorRequest {
    /// The string that the context gives for `key`, if there is one.
    pub fn text_attribute(&self, key: &String) -> (text: Option<String>)
        ensures
            text.is_some() == text_attribute(self.context, key@).is_some(),
            text matches Some(s) ==> Some(s@) == text_attribute(self.context, key@),
    {
        match &self.context {
            Some(context) => context.text(key),
            None => None,
        }
    }
}

/// Answers a callback: status 200 and a body that echoes the callback's
/// `id`, `version` and `stage` and tells the router to continue. The answer
/// depends on the callback alone.
pub fn handler(request: &CoprocessorRequest) -> (response: HandlerResponse)
    ensures
        response.status == STATUS_OK,
        response.body.id@ == request.id@,
        response.body.version == request.version,
        response.body.stage == request.stage,
        response.body.control@ == control_word(),
{
    HandlerResponse {
        status: STATUS_OK,
        body: Acknowledgement {
            id: request.id.clone(),
            version: request.version,
            stage: request.stage,
            control: "continue".to_string(),
        },
    }
}

} // verus!
