//! Self-contained agents with hand-written dispatch tables: an echo agent
//! and a small calculator agent. Each `execute` body is the match a
//! dispatch-table generator would emit: operation name, then payload decode,
//! then the handler method, then the wrapped result. A workflow agent that
//! composes other agents through the registry lives here too.

use vstd::prelude::*;
use vstd::string::StringExecFns;

use crate::agent::{error_val, operation_of, success_val, Action, ActionV, Output, OutputV};
use crate::json::{
    fields_view, lemma_fields_view, obj_get, obj_lookup, JsonCodec, JsonVal, JsonValue,
};
use crate::swarm::{relay_step, Swarm};
use crate::text::str_eq;

verus! {

/// An agent whose one operation, `ping`, returns its string input unchanged.
pub struct EchoAgent {}

/// What executing an action against an echo agent yields.
pub open spec fn echo_output(action: ActionV) -> OutputV {
    if operation_of(action.id) == "ping"@ {
        match <String as JsonCodec>::decode_spec(action.payload) {
            Some(s) => success_val(<String as JsonCodec>::encode_spec(s)),
            None => error_val("Unable to get payload"@),
        }
    } else {
        error_val("Unknown action"@)
    }
}

impl EchoAgent {
    pub fn new() -> (a: EchoAgent) {
        EchoAgent {  }
    }

    /// Handler for the `ping` operation: returns its input unchanged.
    pub fn ping(&self, input: String) -> (r: Result<String, String>)
        ensures
            r == Result::<String, String>::Ok(input),
    {
        Ok(input)
    }

    /// The dispatch table: operation name, payload decode, handler, wrap.
    pub fn execute(&self, action: &Action) -> (out: Output)
        ensures
            out@ == echo_output(action@),
    {
        let name = action.get_name();
        if str_eq(name, "ping") {
            match action.get_payload::<String>() {
                Ok(input) => match self.ping(input) {
                    Ok(v) => Output::new_success(&v),
                    Err(m) => Output::new_error(m.as_str()),
                },
                Err(_) => Output::new_error("Unable to get payload"),
            }
        } else {
            Output::new_error("Unknown action")
        }
    }
}

/// The typed input of the calculator's `add` operation.
pub struct CalcInput {
    pub a: i64,
    pub b: i64,
}

impl View for CalcInput {
    type V = CalcInput;

    open spec fn view(&self) -> CalcInput {
        *self
    }
}

impl JsonCodec for CalcInput {
    open spec fn encode_spec(v: CalcInput) -> JsonVal {
        JsonVal::Obj(
            seq![("a"@, JsonVal::Int(v.a as int)), ("b"@, JsonVal::Int(v.b as int))],
        )
    }

    open spec fn decode_spec(j: JsonVal) -> Option<CalcInput> {
        match j {
            JsonVal::Obj(fields) => match (obj_lookup(fields, "a"@), obj_lookup(fields, "b"@)) {
                (Some(JsonVal::Int(a)), Some(JsonVal::Int(b))) => if i64::MIN <= a <= i64::MAX
                    && i64::MIN <= b <= i64::MAX {
                    Some(CalcInput { a: a as i64, b: b as i64 })
                } else {
                    None
                },
                _ => None,
            },
            _ => None,
        }
    }

    proof fn lemma_codec_round_trip(v: CalcInput) {
        reveal_strlit("a");
        reveal_strlit("b");
        let fields = seq![("a"@, JsonVal::Int(v.a as int)), ("b"@, JsonVal::Int(v.b as int))];
        assert("a"@ != "b"@) by {
            assert("a"@[0] == 'a');
            assert("b"@[0] == 'b');
        }
        assert(obj_lookup(fields, "a"@) == Some(JsonVal::Int(v.a as int)));
        assert(fields.drop_first() =~= seq![("b"@, JsonVal::Int(v.b as int))]);
        assert(obj_lookup(fields.drop_first(), "b"@) == Some(JsonVal::Int(v.b as int)));
        assert(obj_lookup(fields, "b"@) == Some(JsonVal::Int(v.b as int)));
    }

    fn to_json(&self) -> (j: JsonValue) {
        let mut fields: Vec<(String, JsonValue)> = Vec::new();
        fields.push(("a".to_owned(), JsonValue::Int(self.a)));
        fields.push(("b".to_owned(), JsonValue::Int(self.b)));
        proof {
            lemma_fields_view(fields@);
            assert(fields_view(fields@) =~= seq![
                ("a"@, JsonVal::Int(self.a as int)),
                ("b"@, JsonVal::Int(self.b as int)),
            ]);
        }
        JsonValue::Obj(fields)
    }

    fn from_json(j: &JsonValue) -> (r: Option<CalcInput>) {
        match j {
            JsonValue::Obj(fields) => {
                let a = obj_get(fields, "a");
                let b = obj_get(fields, "b");
                match (a, b) {
                    (Some(JsonValue::Int(ai)), Some(JsonValue::Int(bi))) => Some(
                        CalcInput { a: *ai, b: *bi },
                    ),
                    _ => None,
                }
            },
            _ => None,
        }
    }
}

/// An agent whose one operation, `add`, sums the two integers of its input.
pub struct CalcAgent {}

/// What executing an action against a calculator agent yields.
pub open spec fn calc_output(action: ActionV) -> OutputV {
    if operation_of(action.id) == "add"@ {
        match <CalcInput as JsonCodec>::decode_spec(action.payload) {
            Some(v) => if i64::MIN <= v.a + v.b <= i64::MAX {
                success_val(JsonVal::Int(v.a + v.b))
            } else {
                error_val("Addition overflow"@)
            },
            None => error_val("Unable to get payload"@),
        }
    } else {
        error_val("Unknown action"@)
    }
}

impl CalcAgent {
    pub fn new() -> (a: CalcAgent) {
        CalcAgent {  }
    }

    /// Handler for the `add` operation: the checked sum of the two inputs.
    pub fn add(&self, input: CalcInput) -> (r: Result<i64, String>)
        ensures
            match r {
                Ok(s) => i64::MIN <= input.a + input.b <= i64::MAX && s == input.a + input.b,
                Err(m) => !(i64::MIN <= input.a + input.b <= i64::MAX) && m@
                    == "Addition overflow"@,
            },
    {
        match input.a.checked_add(input.b) {
            Some(s) => Ok(s),
            None => Err("Addition overflow".to_owned()),
        }
    }

    /// The dispatch table: operation name, payload decode, handler, wrap.
    pub fn execute(&self, action: &Action) -> (out: Output)
        ensures
            out@ == calc_output(action@),
    {
        let name = action.get_name();
        if str_eq(name, "add") {
            match action.get_payload::<CalcInput>() {
                Ok(input) => match self.add(input) {
                    Ok(v) => Output::new_success(&v),
                    Err(m) => Output::new_error(m.as_str()),
                },
                Err(_) => Output::new_error("Unable to get payload"),
            }
        } else {
            Output::new_error("Unknown action")
        }
    }
}

/// A workflow agent: it composes another agent by dispatching a nested
/// action through the registry it was invoked from, and hands that agent's
/// result back unchanged. The forwarded action targets `target` with the
/// same operation name and the same payload.
pub struct RelayAgent {
    pub target: String,
}

impl RelayAgent {
    pub fn new(target: &str) -> (a: RelayAgent)
        ensures
            a.target@ == target@,
    {
        RelayAgent { target: target.to_owned() }
    }

    /// Workflow handler: one nested dispatch with one unit less budget.
    pub fn execute(&self, action: &Action, swarm: &mut Swarm, fuel: u64) -> (out: Output)
        ensures
            relay_step(*self, old(swarm)@, final(swarm)@, action@, fuel, out@),
        decreases fuel, 0int,
    {
        if fuel == 0 {
            return Output::new_error("Recursion limit reached");
        }
        let mut id = self.target.clone();
        id.append(".");
        id.append(action.get_name());
        proof {
            reveal_strlit(".");
            assert(id@ =~= self.target@ + seq!['.'] + operation_of(action@.id));
        }
        let inner = Action::from_value(id.as_str(), action.get_value().deep_clone());
        swarm.execute_action_fueled(&inner, fuel - 1)
    }
}

} // verus!
