//! The envelope protocol: an `Action` is a routed request naming a target
//! agent, an operation, and a payload; an `Output` is the routed response,
//! carrying a success/error status and a payload. An action id is the
//! compound key `"<agent>.<operation>"`; when no separator is present the
//! whole id is the agent and the operation is `"default"`. Only the first
//! separator matters, so operation names may themselves contain dots.

use vstd::prelude::*;
use vstd::string::StrSliceExecFns;

use crate::json::{JsonCodec, JsonVal, JsonValue};

verus! {

/// The position of the first `'.'` in `id`, or `id.len()` when there is none.
pub open spec fn dot_index(id: Seq<char>) -> int
    decreases id.len(),
{
    if id.len() == 0 {
        0
    } else if id[0] == '.' {
        0
    } else {
        1 + dot_index(id.drop_first())
    }
}

/// Whether the id carries an explicit operation name.
pub open spec fn has_separator(id: Seq<char>) -> bool {
    dot_index(id) < id.len()
}

/// The agent part of an action id: everything before the first separator,
/// or the whole id when there is none.
pub open spec fn agent_of(id: Seq<char>) -> Seq<char> {
    if has_separator(id) {
        id.take(dot_index(id))
    } else {
        id
    }
}

/// The operation part of an action id: everything after the first separator,
/// or `"default"` when there is none.
pub open spec fn operation_of(id: Seq<char>) -> Seq<char> {
    if has_separator(id) {
        id.skip(dot_index(id) + 1)
    } else {
        "default"@
    }
}

/// `dot_index` is in bounds, points at a separator when one exists, and
/// nothing before it is a separator.
pub proof fn lemma_dot_index(id: Seq<char>)
    ensures
        0 <= dot_index(id) <= id.len(),
        has_separator(id) ==> id[dot_index(id)] == '.',
        forall|j: int| 0 <= j < dot_index(id) ==> id[j] != '.',
    decreases id.len(),
{
    if id.len() > 0 && id[0] != '.' {
        let rest = id.drop_first();
        lemma_dot_index(rest);
        assert(forall|j: int| 0 <= j < dot_index(rest) ==> rest[j] != '.');
        assert forall|j: int| 0 <= j < dot_index(id) implies id[j] != '.' by {
            if j > 0 {
                assert(rest[j - 1] == id[j]);
            }
        }
    }
}

/// A separator at `i` with none before it pins `dot_index` to `i`.
pub proof fn lemma_dot_index_of(id: Seq<char>, i: int)
    requires
        0 <= i < id.len(),
        id[i] == '.',
        forall|j: int| 0 <= j < i ==> id[j] != '.',
    ensures
        dot_index(id) == i,
    decreases id.len(),
{
    if i > 0 {
        let rest = id.drop_first();
        assert(rest[i - 1] == id[i]);
        assert forall|j: int| 0 <= j < i - 1 implies rest[j] != '.' by {
            assert(id[j + 1] == rest[j]);
        }
        lemma_dot_index_of(rest, i - 1);
    }
}

/// The position of the first `'.'` in `s`, or its length when there is none.
pub fn find_dot(s: &str) -> (r: usize)
    ensures
        r as int == dot_index(s@),
{
    let len = s.unicode_len();
    let mut i: usize = 0;
    while i < len
        invariant
            i <= len,
            len == s@.len(),
            forall|j: int| 0 <= j < i ==> s@[j] != '.',
        decreases len - i,
    {
        if s.get_char(i) == '.' {
            proof {
                lemma_dot_index_of(s@, i as int);
            }
            return i;
        }
        i = i + 1;
    }
    proof {
        lemma_dot_index(s@);
    }
    len
}

/// Law: for an id with a separator, the agent, the separator and the
/// operation reassemble to exactly the original id.
pub proof fn lemma_id_reassembles(id: Seq<char>)
    requires
        has_separator(id),
    ensures
        agent_of(id) + seq!['.'] + operation_of(id) == id,
{
    lemma_dot_index(id);
    assert(agent_of(id) + seq!['.'] + operation_of(id) =~= id);
}

/// Law: an id without a separator is the agent itself, and the operation
/// defaults to `"default"`.
pub proof fn lemma_id_without_separator(id: Seq<char>)
    requires
        !has_separator(id),
    ensures
        agent_of(id) == id,
        operation_of(id) == "default"@,
{
}

/// The mathematical content of an `Action`.
pub struct ActionV {
    pub id: Seq<char>,
    pub payload: JsonVal,
}

/// A routed request envelope. The id is immutable once constructed; parsing
/// it is pure and total.
pub struct Action {
    id: String,
    payload: JsonValue,
}

impl View for Action {
    type V = ActionV;

    closed spec fn view(&self) -> ActionV {
        ActionV { id: self.id@, payload: self.payload@ }
    }
}

impl Action {
    /// Builds an envelope around any typed payload; never fails.
    pub fn new<T: JsonCodec>(id: &str, payload: &T) -> (a: Action)
        ensures
            a@.id == id@,
            a@.payload == T::encode_spec(payload@),
    {
        Action { id: id.to_owned(), payload: payload.to_json() }
    }

    /// Builds an envelope directly around a payload value.
    pub fn from_value(id: &str, payload: JsonValue) -> (a: Action)
        ensures
            a@.id == id@,
            a@.payload == payload@,
    {
        Action { id: id.to_owned(), payload }
    }

    /// Attempts structural decoding of the payload; a mismatch is a
    /// recoverable error, not a fatal one.
    pub fn get_payload<T: JsonCodec>(&self) -> (r: Result<T, String>)
        ensures
            match r {
                Ok(x) => T::decode_spec(self@.payload) == Some(x@),
                Err(m) => T::decode_spec(self@.payload) is None && m@
                    == "Unable to deserialize payload"@,
            },
    {
        match T::from_json(&self.payload) {
            Some(x) => Ok(x),
            None => Err("Unable to deserialize payload".to_owned()),
        }
    }

    /// The payload value itself.
    pub fn get_value(&self) -> (v: &JsonValue)
        ensures
            v@ == self@.payload,
    {
        &self.payload
    }

    /// The operation name: everything after the first separator, or
    /// `"default"` when the id has none.
    pub fn get_name(&self) -> (r: &str)
        ensures
            r@ == operation_of(self@.id),
    {
        let s = self.id.as_str();
        let len = s.unicode_len();
        let d = find_dot(s);
        if d < len {
            let r = s.substring_char(d + 1, len);
            proof {
                assert(r@ =~= operation_of(self@.id));
            }
            r
        } else {
            "default"
        }
    }

    /// The agent part of the id: everything before the first separator, or
    /// the whole id when there is none.
    pub fn get_agent(&self) -> (r: &str)
        ensures
            r@ == agent_of(self@.id),
    {
        let s = self.id.as_str();
        let len = s.unicode_len();
        let d = find_dot(s);
        if d < len {
            let r = s.substring_char(0, d);
            proof {
                assert(r@ =~= agent_of(self@.id));
            }
            r
        } else {
            s
        }
    }

    /// The full action id.
    pub fn get_id(&self) -> (r: &str)
        ensures
            r@ == self@.id,
    {
        self.id.as_str()
    }
}

/// The closed two-valued status of an `Output`.
enum Status {
    Success,
    Error,
}

/// The mathematical content of an `Output`.
pub struct OutputV {
    pub agent_id: Seq<char>,
    pub success: bool,
    pub payload: JsonVal,
}

/// A freshly built success output: no agent id yet, the encoded payload.
pub open spec fn success_val(payload: JsonVal) -> OutputV {
    OutputV { agent_id: Seq::empty(), success: true, payload }
}

/// A freshly built error output: no agent id yet, the message as payload.
pub open spec fn error_val(message: Seq<char>) -> OutputV {
    OutputV { agent_id: Seq::empty(), success: false, payload: JsonVal::Str(message) }
}

/// A routed response envelope. On success the payload is the typed result;
/// on error it is a human-readable message string. The registry, not the
/// agent, fills in `agent_id` after dispatch.
pub struct Output {
    pub agent_id: String,
    status: Status,
    payload: JsonValue,
}

impl View for Output {
    type V = OutputV;

    closed spec fn view(&self) -> OutputV {
        OutputV {
            agent_id: self.agent_id@,
            success: self.status is Success,
            payload: self.payload@,
        }
    }
}

impl Output {
    /// A success envelope around any typed payload; never fails.
    pub fn new_success<T: JsonCodec>(payload: &T) -> (out: Output)
        ensures
            out@ == success_val(T::encode_spec(payload@)),
    {
        Output { agent_id: String::new(), status: Status::Success, payload: payload.to_json() }
    }

    /// An error envelope around a message string.
    pub fn new_error(message: &str) -> (out: Output)
        ensures
            out@ == error_val(message@),
    {
        Output {
            agent_id: String::new(),
            status: Status::Error,
            payload: JsonValue::Str(message.to_owned()),
        }
    }

    /// Attempts structural decoding of the payload; callers should check
    /// `is_success` first, and a mismatch is a recoverable error.
    pub fn get_payload<T: JsonCodec>(&self) -> (r: Result<T, String>)
        ensures
            match r {
                Ok(x) => T::decode_spec(self@.payload) == Some(x@),
                Err(m) => T::decode_spec(self@.payload) is None && m@
                    == "Unable to deserialize payload"@,
            },
    {
        match T::from_json(&self.payload) {
            Some(x) => Ok(x),
            None => Err("Unable to deserialize payload".to_owned()),
        }
    }

    /// The payload value itself.
    pub fn get_value(&self) -> (v: &JsonValue)
        ensures
            v@ == self@.payload,
    {
        &self.payload
    }

    /// The message of an error output, whose payload is always a string.
    pub fn get_error_message(&self) -> (r: String)
        requires
            self@.payload is Str,
        ensures
            r@ == self@.payload->Str_0,
    {
        match &self.payload {
            JsonValue::Str(s) => s.clone(),
            _ => String::new(),
        }
    }

    /// Overwrites the agent id; the registry uses this to stamp every output
    /// with the responding agent's registered id after dispatch.
    pub fn set_agent_id(&mut self, id: &str)
        ensures
            final(self)@ == (OutputV {
                agent_id: id@,
                success: old(self)@.success,
                payload: old(self)@.payload,
            }),
    {
        self.agent_id = id.to_owned();
    }

    /// Whether the output reports success; a pure predicate on the status.
    pub fn is_success(&self) -> (r: bool)
        ensures
            r == self@.success,
    {
        match self.status {
            Status::Success => true,
            Status::Error => false,
        }
    }
}

/// Law: a success envelope built from a payload always decodes back to that
/// payload — `new_success` encodes with `encode_spec`, `get_payload` decodes
/// with `decode_spec`, and the two compose to the identity.
pub proof fn lemma_success_payload_round_trip<T: JsonCodec>(v: T::V)
    ensures
        T::decode_spec(success_val(T::encode_spec(v)).payload) == Some(v),
{
    T::lemma_codec_round_trip(v);
}

} // verus!
