//! The language-model agent: a fixed set of prompt templates — a role, a
//! goal and output rules — filled from a key/value prompt, handed to the
//! client, and answered with a completion response.

use vstd::prelude::*;
use vstd::string::StringExecFns;

use crate::agent::{error_val, operation_of, success_val, Action, ActionV, Output, OutputV};
use crate::json::{
    fields_view, lemma_fields_view, JsonCodec, JsonVal, JsonValue,
};
use crate::llm_agent::llm_client::LLMClient;
use crate::llm_agent::llm_message::{LLMMessage, LLMMessageBuilder, LLMMessageV};
use crate::llm_agent::llm_response::{LLMResponse, LLMResponseV};
use crate::text::{filled, pairs_view, str_eq};

verus! {

/// The key/value substitutions a caller hands to the agent; each key stands
/// in a template as the braced `{key}`.
pub struct LLMPrompt {
    values: Vec<(String, String)>,
}

impl View for LLMPrompt {
    type V = Seq<(Seq<char>, Seq<char>)>;

    closed spec fn view(&self) -> Seq<(Seq<char>, Seq<char>)> {
        pairs_view(self.values@)
    }
}

/// The entries with `key` bound to `value`: the first entry under that key
/// is replaced, or a new entry is appended.
pub open spec fn upsert(
    entries: Seq<(Seq<char>, Seq<char>)>,
    key: Seq<char>,
    value: Seq<char>,
) -> Seq<(Seq<char>, Seq<char>)>
    decreases entries.len(),
{
    if entries.len() == 0 {
        seq![(key, value)]
    } else if entries[0].0 == key {
        seq![(key, value)] + entries.drop_first()
    } else {
        seq![entries[0]] + upsert(entries.drop_first(), key, value)
    }
}

/// Replacing the first entry under a key is what `upsert` does when the key
/// is present.
proof fn lemma_upsert_at(entries: Seq<(Seq<char>, Seq<char>)>, key: Seq<char>, value: Seq<char>, i: int)
    requires
        0 <= i < entries.len(),
        entries[i].0 == key,
        forall|j: int| 0 <= j < i ==> entries[j].0 != key,
    ensures
        upsert(entries, key, value) == entries.update(i, (key, value)),
    decreases i,
{
    if i == 0 {
        assert(upsert(entries, key, value) =~= entries.update(0, (key, value)));
    } else {
        let rest = entries.drop_first();
        assert(rest[i - 1] == entries[i]);
        assert forall|j: int| 0 <= j < i - 1 implies (#[trigger] rest[j]).0 != key by {
            assert(rest[j] == entries[j + 1]);
        }
        lemma_upsert_at(rest, key, value, i - 1);
        assert(upsert(entries, key, value) =~= entries.update(i, (key, value)));
    }
}

/// Appending is what `upsert` does when the key is absent.
proof fn lemma_upsert_missing(entries: Seq<(Seq<char>, Seq<char>)>, key: Seq<char>, value: Seq<char>)
    requires
        forall|j: int| 0 <= j < entries.len() ==> entries[j].0 != key,
    ensures
        upsert(entries, key, value) == entries.push((key, value)),
    decreases entries.len(),
{
    if entries.len() == 0 {
        assert(upsert(entries, key, value) =~= entries.push((key, value)));
    } else {
        let rest = entries.drop_first();
        assert forall|j: int| 0 <= j < rest.len() implies (#[trigger] rest[j]).0 != key by {
            assert(rest[j] == entries[j + 1]);
        }
        lemma_upsert_missing(rest, key, value);
        assert(upsert(entries, key, value) =~= entries.push((key, value)));
    }
}

/// The content entries encoded as an object, key by key in order.
pub open spec fn encode_pairs(entries: Seq<(Seq<char>, Seq<char>)>) -> Seq<(Seq<char>, JsonVal)> {
    Seq::new(entries.len(), |i: int| (entries[i].0, JsonVal::Str(entries[i].1)))
}

/// The fields of an object read back as content entries; a field that is
/// not a string fails the whole prompt.
pub open spec fn decode_pairs(fields: Seq<(Seq<char>, JsonVal)>) -> Option<
    Seq<(Seq<char>, Seq<char>)>,
>
    decreases fields.len(),
{
    if fields.len() == 0 {
        Some(Seq::empty())
    } else {
        match (decode_pairs(fields.drop_last()), fields.last().1) {
            (Some(init), JsonVal::Str(s)) => Some(init.push((fields.last().0, s))),
            _ => None,
        }
    }
}

/// Law: reading back encoded content entries gives the entries back.
proof fn lemma_pairs_round_trip(entries: Seq<(Seq<char>, Seq<char>)>)
    ensures
        decode_pairs(encode_pairs(entries)) == Some(entries),
    decreases entries.len(),
{
    if entries.len() == 0 {
        assert(encode_pairs(entries) =~= Seq::<(Seq<char>, JsonVal)>::empty());
    } else {
        let init = entries.drop_last();
        lemma_pairs_round_trip(init);
        let enc = encode_pairs(entries);
        assert(enc.drop_last() =~= encode_pairs(init));
        assert(enc.last() == (entries.last().0, JsonVal::Str(entries.last().1)));
        assert(init.push(entries.last()) =~= entries);
    }
}

impl JsonCodec for LLMPrompt {
    open spec fn encode_spec(v: Seq<(Seq<char>, Seq<char>)>) -> JsonVal {
        JsonVal::Obj(encode_pairs(v))
    }

    open spec fn decode_spec(j: JsonVal) -> Option<Seq<(Seq<char>, Seq<char>)>> {
        match j {
            JsonVal::Obj(fields) => decode_pairs(fields),
            _ => None,
        }
    }

    proof fn lemma_codec_round_trip(v: Seq<(Seq<char>, Seq<char>)>) {
        lemma_pairs_round_trip(v);
    }

    fn to_json(&self) -> (j: JsonValue) {
        let mut fields: Vec<(String, JsonValue)> = Vec::new();
        let mut i: usize = 0;
        while i < self.values.len()
            invariant
                i <= self.values@.len(),
                fields@.len() == i as int,
                forall|j: int| 0 <= j < i ==> (#[trigger] fields@[j]).0@ == self.values@[j].0@
                    && fields@[j].1@ == JsonVal::Str(self.values@[j].1@),
            decreases self.values@.len() - i,
        {
            fields.push((self.values[i].0.clone(), JsonValue::Str(self.values[i].1.clone())));
            i = i + 1;
        }
        proof {
            lemma_fields_view(fields@);
            assert(fields_view(fields@) =~= encode_pairs(pairs_view(self.values@)));
        }
        JsonValue::Obj(fields)
    }

    fn from_json(j: &JsonValue) -> (r: Option<LLMPrompt>) {
        match j {
            JsonValue::Obj(fields) => {
                proof {
                    lemma_fields_view(fields@);
                }
                let mut values: Vec<(String, String)> = Vec::new();
                let mut i: usize = 0;
                while i < fields.len()
                    invariant
                        i <= fields@.len(),
                        j@ == JsonVal::Obj(fields_view(fields@)),
                        fields_view(fields@).len() == fields@.len(),
                        forall|j: int| 0 <= j < fields@.len() ==> #[trigger] fields_view(
                            fields@,
                        )[j] == (fields@[j].0@, fields@[j].1@),
                        decode_pairs(fields_view(fields@).take(i as int)) == Some(
                            pairs_view(values@),
                        ),
                    decreases fields@.len() - i,
                {
                    proof {
                        assert(fields_view(fields@).take(i as int) =~= fields_view(
                            fields@,
                        ).take(i + 1 as int).drop_last());
                    }
                    match &fields[i].1 {
                        JsonValue::Str(s) => {
                            let ghost prev = values@;
                            values.push((fields[i].0.clone(), s.clone()));
                            proof {
                                assert(pairs_view(values@) =~= pairs_view(prev).push(
                                    (fields@[i as int].0@, s@),
                                ));
                            }
                        },
                        _ => {
                            proof {
                                assert(!(fields@[i as int].1@ is Str));
                                lemma_decode_pairs_fails(fields_view(fields@), i as int);
                            }
                            return None;
                        },
                    }
                    i = i + 1;
                }
                proof {
                    assert(fields_view(fields@).take(fields@.len() as int) =~= fields_view(
                        fields@,
                    ));
                }
                Some(LLMPrompt { values })
            },
            _ => None,
        }
    }
}

/// A field that is not a string fails the whole prompt.
proof fn lemma_decode_pairs_fails(fields: Seq<(Seq<char>, JsonVal)>, i: int)
    requires
        0 <= i < fields.len(),
        !(fields[i].1 is Str),
    ensures
        decode_pairs(fields) is None,
    decreases fields.len(),
{
    if i < fields.len() - 1 {
        lemma_decode_pairs_fails(fields.drop_last(), i);
    }
}

impl LLMPrompt {
    /// An empty prompt.
    pub fn new() -> (p: LLMPrompt)
        ensures
            p@ == Seq::<(Seq<char>, Seq<char>)>::empty(),
    {
        let p = LLMPrompt { values: Vec::new() };
        proof {
            assert(p@ =~= Seq::<(Seq<char>, Seq<char>)>::empty());
        }
        p
    }

    /// Binds `key` to `content`: the first entry under that key is replaced,
    /// or a new entry is appended.
    pub fn add_content(&mut self, key: &str, content: &str)
        ensures
            final(self)@ == upsert(old(self)@, key@, content@),
    {
        let ghost pre = self@;
        let mut i: usize = 0;
        while i < self.values.len()
            invariant
                i <= self.values@.len(),
                self@ == pre,
                pre == old(self)@,
                forall|j: int| 0 <= j < i ==> #[trigger] pre[j].0 != key@,
                pre == pairs_view(self.values@),
            decreases self.values@.len() - i,
        {
            if str_eq(self.values[i].0.as_str(), key) {
                proof {
                    lemma_upsert_at(pre, key@, content@, i as int);
                }
                self.values.set(i, (key.to_owned(), content.to_owned()));
                proof {
                    assert(pairs_view(self.values@) =~= pre.update(i as int, (key@, content@)));
                }
                return ;
            }
            i = i + 1;
        }
        proof {
            lemma_upsert_missing(pre, key@, content@);
        }
        self.values.push((key.to_owned(), content.to_owned()));
        proof {
            assert(pairs_view(self.values@) =~= pre.push((key@, content@)));
        }
    }
}

/// The mathematical content of an `LLMAgent`.
pub struct LLMAgentV {
    pub id: Seq<char>,
    pub role: Seq<char>,
    pub goal: Seq<char>,
    pub output_rules: Seq<char>,
    pub output_format: Option<JsonVal>,
}

/// A language-model agent: an id, its prompt templates, and an optional
/// output schema, around a client.
pub struct LLMAgent {
    id: String,
    client: LLMClient,
    role: String,
    goal: String,
    output_rules: String,
    output_format: Option<JsonValue>,
}

impl View for LLMAgent {
    type V = LLMAgentV;

    closed spec fn view(&self) -> LLMAgentV {
        LLMAgentV {
            id: self.id@,
            role: self.role@,
            goal: self.goal@,
            output_rules: self.output_rules@,
            output_format: match self.output_format {
                Some(ref f) => Some(f@),
                None => None,
            },
        }
    }
}

/// The three system messages the agent builds from its templates and a
/// prompt: the filled role, the filled goal, and the filled output rules.
pub open spec fn built_messages(agent: LLMAgentV, prompt: Seq<(Seq<char>, Seq<char>)>) -> Seq<
    LLMMessageV,
> {
    seq![
        LLMMessageV { role: "system"@, content: filled(agent.role, prompt) },
        LLMMessageV { role: "system"@, content: filled(agent.goal, prompt) },
        LLMMessageV { role: "system"@, content: filled(agent.output_rules, prompt) },
    ]
}

/// What executing an action against a language-model agent yields: its one
/// operation decodes a prompt and answers with whatever completion the
/// backend returned, or with the summary error when the backend failed.
pub open spec fn llm_output(action: ActionV, out: OutputV) -> bool {
    if operation_of(action.id) == "execute"@ {
        match <LLMPrompt as JsonCodec>::decode_spec(action.payload) {
            Some(_) => (out == error_val("Unable to get summary"@)) || (exists|resp: LLMResponseV|
                out == success_val(LLMResponse::encode_spec(resp))),
            None => out == error_val("Unable to get payload"@),
        }
    } else {
        out == error_val("Unknown action"@)
    }
}

impl LLMAgent {
    pub fn new(
        id: &str,
        client: LLMClient,
        role: &str,
        goal: &str,
        output_rules: &str,
        output_format: Option<JsonValue>,
    ) -> (a: LLMAgent)
        ensures
            a@.id == id@,
            a@.role == role@,
            a@.goal == goal@,
            a@.output_rules == output_rules@,
            a@.output_format == match output_format {
                Some(ref f) => Some(f@),
                None => None::<JsonVal>,
            },
    {
        LLMAgent {
            id: id.to_owned(),
            client,
            role: role.to_owned(),
            goal: goal.to_owned(),
            output_rules: output_rules.to_owned(),
            output_format,
        }
    }

    /// The id the agent registers itself under.
    pub fn get_id(&self) -> (r: String)
        ensures
            r@ == self@.id,
    {
        self.id.clone()
    }

    /// The system messages for one prompt: each template filled with the
    /// prompt's entries, in order.
    pub fn build_messages(&self, prompt: &LLMPrompt) -> (msgs: Vec<LLMMessage>)
        ensures
            crate::json::views_of(msgs@) == built_messages(self@, prompt@),
    {
        let role_text = crate::text::fill_template(self.role.as_str(), prompt.entries());
        let goal_text = crate::text::fill_template(self.goal.as_str(), prompt.entries());
        let output_rules_text = crate::text::fill_template(
            self.output_rules.as_str(),
            prompt.entries(),
        );
        let msgs = LLMMessageBuilder::new().add_system_message(role_text.as_str())
            .add_system_message(goal_text.as_str())
            .add_system_message(output_rules_text.as_str())
            .build();
        proof {
            assert(crate::json::views_of(msgs@) =~= built_messages(self@, prompt@));
        }
        msgs
    }

    /// Handler for the `execute` operation: fill the templates, ask the
    /// backend, and hand its completion back; any backend failure is the
    /// summary error.
    pub fn execute(&self, prompt: LLMPrompt) -> (r: Result<LLMResponse, String>)
        ensures
            match r {
                Ok(_) => true,
                Err(m) => m@ == "Unable to get summary"@,
            },
    {
        let messages = self.build_messages(&prompt);
        match self.client.autocomplete(&messages, self.output_format.as_ref()) {
            Ok(response) => Ok(response),
            Err(_) => Err("Unable to get summary".to_owned()),
        }
    }

    /// The dispatch table: operation name, payload decode, handler, wrap.
    pub fn handle(&self, action: &Action) -> (out: Output)
        ensures
            llm_output(action@, out@),
    {
        let name = action.get_name();
        if str_eq(name, "execute") {
            match action.get_payload::<LLMPrompt>() {
                Ok(prompt) => match self.execute(prompt) {
                    Ok(response) => Output::new_success(&response),
                    Err(m) => Output::new_error(m.as_str()),
                },
                Err(_) => Output::new_error("Unable to get payload"),
            }
        } else {
            Output::new_error("Unknown action")
        }
    }
}

impl LLMPrompt {
    /// The content entries, in the order they apply.
    pub fn entries(&self) -> (r: &Vec<(String, String)>)
        ensures
            pairs_view(r@) == self@,
    {
        &self.values
    }
}

} // verus!
