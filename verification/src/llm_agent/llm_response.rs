//! The response envelope a language-model backend answers with: the list of
//! choices, each carrying a message, and the token usage accounting.

use vstd::prelude::*;
use vstd::string::StringExecFns;

use crate::interop::{json_parse_of, parse_json};
use crate::json::{
    decode_list, elems_view, encode_list, fields_view, lemma_fields_view, lemma_list_round_trip,
    lemma_obj_lookup_at, list_from_json, list_to_json, obj_get, obj_lookup, views_of, JsonCodec,
    JsonVal, JsonValue,
};
use crate::llm_agent::llm_message::{LLMMessage, LLMMessageV};

verus! {

/// Token usage accounting of one completion.
pub struct LLMUsage {
    pub completion_tokens: u32,
    pub prompt_tokens: u32,
    pub total_tokens: u32,
}

impl View for LLMUsage {
    type V = LLMUsage;

    open spec fn view(&self) -> LLMUsage {
        *self
    }
}

impl JsonCodec for LLMUsage {
    open spec fn encode_spec(v: LLMUsage) -> JsonVal {
        JsonVal::Obj(
            seq![
                ("completion_tokens"@, JsonVal::Int(v.completion_tokens as int)),
                ("prompt_tokens"@, JsonVal::Int(v.prompt_tokens as int)),
                ("total_tokens"@, JsonVal::Int(v.total_tokens as int)),
            ],
        )
    }

    open spec fn decode_spec(j: JsonVal) -> Option<LLMUsage> {
        match j {
            JsonVal::Obj(fields) => match (
                obj_lookup(fields, "completion_tokens"@),
                obj_lookup(fields, "prompt_tokens"@),
                obj_lookup(fields, "total_tokens"@),
            ) {
                (Some(JsonVal::Int(c)), Some(JsonVal::Int(p)), Some(JsonVal::Int(t))) => if 0 <= c
                    <= u32::MAX && 0 <= p <= u32::MAX && 0 <= t <= u32::MAX {
                    Some(
                        LLMUsage {
                            completion_tokens: c as u32,
                            prompt_tokens: p as u32,
                            total_tokens: t as u32,
                        },
                    )
                } else {
                    None
                },
                _ => None,
            },
            _ => None,
        }
    }

    proof fn lemma_codec_round_trip(v: LLMUsage) {
        reveal_strlit("completion_tokens");
        reveal_strlit("prompt_tokens");
        reveal_strlit("total_tokens");
        let fields = seq![
            ("completion_tokens"@, JsonVal::Int(v.completion_tokens as int)),
            ("prompt_tokens"@, JsonVal::Int(v.prompt_tokens as int)),
            ("total_tokens"@, JsonVal::Int(v.total_tokens as int)),
        ];
        assert("completion_tokens"@ != "prompt_tokens"@) by {
            assert("completion_tokens"@.len() != "prompt_tokens"@.len());
        }
        assert("completion_tokens"@ != "total_tokens"@) by {
            assert("completion_tokens"@.len() != "total_tokens"@.len());
        }
        assert("prompt_tokens"@ != "total_tokens"@) by {
            assert("prompt_tokens"@.len() != "total_tokens"@.len());
        }
        lemma_obj_lookup_at(fields, 0);
        lemma_obj_lookup_at(fields, 1);
        lemma_obj_lookup_at(fields, 2);
    }

    fn to_json(&self) -> (j: JsonValue) {
        let mut fields: Vec<(String, JsonValue)> = Vec::new();
        fields.push(
            ("completion_tokens".to_owned(), JsonValue::Int(self.completion_tokens as i64)),
        );
        fields.push(("prompt_tokens".to_owned(), JsonValue::Int(self.prompt_tokens as i64)));
        fields.push(("total_tokens".to_owned(), JsonValue::Int(self.total_tokens as i64)));
        proof {
            lemma_fields_view(fields@);
            assert(fields_view(fields@) =~= seq![
                ("completion_tokens"@, JsonVal::Int(self.completion_tokens as int)),
                ("prompt_tokens"@, JsonVal::Int(self.prompt_tokens as int)),
                ("total_tokens"@, JsonVal::Int(self.total_tokens as int)),
            ]);
        }
        JsonValue::Obj(fields)
    }

    fn from_json(j: &JsonValue) -> (r: Option<LLMUsage>) {
        match j {
            JsonValue::Obj(fields) => {
                let c = obj_get(fields, "completion_tokens");
                let p = obj_get(fields, "prompt_tokens");
                let t = obj_get(fields, "total_tokens");
                match (c, p, t) {
                    (
                        Some(JsonValue::Int(c)),
                        Some(JsonValue::Int(p)),
                        Some(JsonValue::Int(t)),
                    ) => if 0 <= *c && *c <= u32::MAX as i64 && 0 <= *p && *p <= u32::MAX as i64
                        && 0 <= *t && *t <= u32::MAX as i64 {
                        Some(
                            LLMUsage {
                                completion_tokens: *c as u32,
                                prompt_tokens: *p as u32,
                                total_tokens: *t as u32,
                            },
                        )
                    } else {
                        None
                    },
                    _ => None,
                }
            },
            _ => None,
        }
    }
}

/// One completion choice: its stop reason, its index, and its message.
pub struct LLMChoice {
    pub finish_reason: String,
    pub index: u32,
    pub message: LLMMessage,
}

/// The mathematical content of an `LLMChoice`.
pub struct LLMChoiceV {
    pub finish_reason: Seq<char>,
    pub index: u32,
    pub message: LLMMessageV,
}

impl View for LLMChoice {
    type V = LLMChoiceV;

    open spec fn view(&self) -> LLMChoiceV {
        LLMChoiceV {
            finish_reason: self.finish_reason@,
            index: self.index,
            message: self.message@,
        }
    }
}

impl JsonCodec for LLMChoice {
    open spec fn encode_spec(v: LLMChoiceV) -> JsonVal {
        JsonVal::Obj(
            seq![
                ("finish_reason"@, JsonVal::Str(v.finish_reason)),
                ("index"@, JsonVal::Int(v.index as int)),
                ("message"@, LLMMessage::encode_spec(v.message)),
            ],
        )
    }

    open spec fn decode_spec(j: JsonVal) -> Option<LLMChoiceV> {
        match j {
            JsonVal::Obj(fields) => match (
                obj_lookup(fields, "finish_reason"@),
                obj_lookup(fields, "index"@),
                obj_lookup(fields, "message"@),
            ) {
                (Some(JsonVal::Str(finish_reason)), Some(JsonVal::Int(index)), Some(m)) => match (
                    LLMMessage::decode_spec(m)
                ) {
                    Some(message) => if 0 <= index <= u32::MAX {
                        Some(LLMChoiceV { finish_reason, index: index as u32, message })
                    } else {
                        None
                    },
                    None => None,
                },
                _ => None,
            },
            _ => None,
        }
    }

    proof fn lemma_codec_round_trip(v: LLMChoiceV) {
        reveal_strlit("finish_reason");
        reveal_strlit("index");
        reveal_strlit("message");
        let fields = seq![
            ("finish_reason"@, JsonVal::Str(v.finish_reason)),
            ("index"@, JsonVal::Int(v.index as int)),
            ("message"@, LLMMessage::encode_spec(v.message)),
        ];
        assert("finish_reason"@ != "index"@) by {
            assert("finish_reason"@.len() != "index"@.len());
        }
        assert("finish_reason"@ != "message"@) by {
            assert("finish_reason"@.len() != "message"@.len());
        }
        assert("index"@ != "message"@) by {
            assert("index"@.len() != "message"@.len());
        }
        lemma_obj_lookup_at(fields, 0);
        lemma_obj_lookup_at(fields, 1);
        lemma_obj_lookup_at(fields, 2);
        LLMMessage::lemma_codec_round_trip(v.message);
    }

    fn to_json(&self) -> (j: JsonValue) {
        let mut fields: Vec<(String, JsonValue)> = Vec::new();
        fields.push(("finish_reason".to_owned(), JsonValue::Str(self.finish_reason.clone())));
        fields.push(("index".to_owned(), JsonValue::Int(self.index as i64)));
        fields.push(("message".to_owned(), self.message.to_json()));
        proof {
            lemma_fields_view(fields@);
            assert(fields_view(fields@) =~= seq![
                ("finish_reason"@, JsonVal::Str(self.finish_reason@)),
                ("index"@, JsonVal::Int(self.index as int)),
                ("message"@, LLMMessage::encode_spec(self.message@)),
            ]);
        }
        JsonValue::Obj(fields)
    }

    fn from_json(j: &JsonValue) -> (r: Option<LLMChoice>) {
        match j {
            JsonValue::Obj(fields) => {
                let finish_reason = obj_get(fields, "finish_reason");
                let index = obj_get(fields, "index");
                let message = obj_get(fields, "message");
                match (finish_reason, index, message) {
                    (Some(JsonValue::Str(finish_reason)), Some(JsonValue::Int(index)), Some(m)) =>
                        match LLMMessage::from_json(m) {
                        Some(message) => if 0 <= *index && *index <= u32::MAX as i64 {
                            Some(
                                LLMChoice {
                                    finish_reason: finish_reason.clone(),
                                    index: *index as u32,
                                    message,
                                },
                            )
                        } else {
                            None
                        },
                        None => None,
                    },
                    _ => None,
                }
            },
            _ => None,
        }
    }
}

/// A backend completion response.
pub struct LLMResponse {
    pub created: u32,
    pub choices: Vec<LLMChoice>,
    pub model: String,
    pub usage: LLMUsage,
    pub system_fingerprint: String,
    pub object: String,
}

/// The mathematical content of an `LLMResponse`.
pub struct LLMResponseV {
    pub created: u32,
    pub choices: Seq<LLMChoiceV>,
    pub model: Seq<char>,
    pub usage: LLMUsage,
    pub system_fingerprint: Seq<char>,
    pub object: Seq<char>,
}

impl View for LLMResponse {
    type V = LLMResponseV;

    open spec fn view(&self) -> LLMResponseV {
        LLMResponseV {
            created: self.created,
            choices: views_of(self.choices@),
            model: self.model@,
            usage: self.usage,
            system_fingerprint: self.system_fingerprint@,
            object: self.object@,
        }
    }
}

impl JsonCodec for LLMResponse {
    open spec fn encode_spec(v: LLMResponseV) -> JsonVal {
        JsonVal::Obj(
            seq![
                ("created"@, JsonVal::Int(v.created as int)),
                ("choices"@, JsonVal::Arr(encode_list::<LLMChoice>(v.choices))),
                ("model"@, JsonVal::Str(v.model)),
                ("usage"@, LLMUsage::encode_spec(v.usage)),
                ("system_fingerprint"@, JsonVal::Str(v.system_fingerprint)),
                ("object"@, JsonVal::Str(v.object)),
            ],
        )
    }

    open spec fn decode_spec(j: JsonVal) -> Option<LLMResponseV> {
        match j {
            JsonVal::Obj(fields) => match (
                obj_lookup(fields, "created"@),
                obj_lookup(fields, "choices"@),
                obj_lookup(fields, "model"@),
                obj_lookup(fields, "usage"@),
                obj_lookup(fields, "system_fingerprint"@),
                obj_lookup(fields, "object"@),
            ) {
                (
                    Some(JsonVal::Int(created)),
                    Some(JsonVal::Arr(choices)),
                    Some(JsonVal::Str(model)),
                    Some(u),
                    Some(JsonVal::Str(system_fingerprint)),
                    Some(JsonVal::Str(object)),
                ) => match (decode_list::<LLMChoice>(choices), LLMUsage::decode_spec(u)) {
                    (Some(choices), Some(usage)) => if 0 <= created <= u32::MAX {
                        Some(
                            LLMResponseV {
                                created: created as u32,
                                choices,
                                model,
                                usage,
                                system_fingerprint,
                                object,
                            },
                        )
                    } else {
                        None
                    },
                    _ => None,
                },
                _ => None,
            },
            _ => None,
        }
    }

    proof fn lemma_codec_round_trip(v: LLMResponseV) {
        reveal_strlit("created");
        reveal_strlit("choices");
        reveal_strlit("model");
        reveal_strlit("usage");
        reveal_strlit("system_fingerprint");
        reveal_strlit("object");
        let fields = seq![
            ("created"@, JsonVal::Int(v.created as int)),
            ("choices"@, JsonVal::Arr(encode_list::<LLMChoice>(v.choices))),
            ("model"@, JsonVal::Str(v.model)),
            ("usage"@, LLMUsage::encode_spec(v.usage)),
            ("system_fingerprint"@, JsonVal::Str(v.system_fingerprint)),
            ("object"@, JsonVal::Str(v.object)),
        ];
        assert("created"@ != "choices"@) by {
            assert("created"@[1] == 'r' && "choices"@[1] == 'h');
        }
        assert("created"@ != "model"@) by {
            assert("created"@.len() != "model"@.len());
        }
        assert("created"@ != "usage"@) by {
            assert("created"@.len() != "usage"@.len());
        }
        assert("created"@ != "system_fingerprint"@) by {
            assert("created"@.len() != "system_fingerprint"@.len());
        }
        assert("created"@ != "object"@) by {
            assert("created"@.len() != "object"@.len());
        }
        assert("choices"@ != "model"@) by {
            assert("choices"@.len() != "model"@.len());
        }
        assert("choices"@ != "usage"@) by {
            assert("choices"@.len() != "usage"@.len());
        }
        assert("choices"@ != "system_fingerprint"@) by {
            assert("choices"@.len() != "system_fingerprint"@.len());
        }
        assert("choices"@ != "object"@) by {
            assert("choices"@.len() != "object"@.len());
        }
        assert("model"@ != "usage"@) by {
            assert("model"@[0] == 'm' && "usage"@[0] == 'u');
        }
        assert("model"@ != "system_fingerprint"@) by {
            assert("model"@.len() != "system_fingerprint"@.len());
        }
        assert("model"@ != "object"@) by {
            assert("model"@.len() != "object"@.len());
        }
        assert("usage"@ != "system_fingerprint"@) by {
            assert("usage"@.len() != "system_fingerprint"@.len());
        }
        assert("usage"@ != "object"@) by {
            assert("usage"@.len() != "object"@.len());
        }
        assert("system_fingerprint"@ != "object"@) by {
            assert("system_fingerprint"@.len() != "object"@.len());
        }
        lemma_obj_lookup_at(fields, 0);
        lemma_obj_lookup_at(fields, 1);
        lemma_obj_lookup_at(fields, 2);
        lemma_obj_lookup_at(fields, 3);
        lemma_obj_lookup_at(fields, 4);
        lemma_obj_lookup_at(fields, 5);
        lemma_list_round_trip::<LLMChoice>(v.choices);
        LLMUsage::lemma_codec_round_trip(v.usage);
    }

    fn to_json(&self) -> (j: JsonValue) {
        let mut fields: Vec<(String, JsonValue)> = Vec::new();
        fields.push(("created".to_owned(), JsonValue::Int(self.created as i64)));
        fields.push(("choices".to_owned(), JsonValue::Arr(list_to_json(&self.choices))));
        fields.push(("model".to_owned(), JsonValue::Str(self.model.clone())));
        fields.push(("usage".to_owned(), self.usage.to_json()));
        fields.push(
            ("system_fingerprint".to_owned(), JsonValue::Str(self.system_fingerprint.clone())),
        );
        fields.push(("object".to_owned(), JsonValue::Str(self.object.clone())));
        proof {
            lemma_fields_view(fields@);
            assert(fields_view(fields@) =~= seq![
                ("created"@, JsonVal::Int(self.created as int)),
                ("choices"@, JsonVal::Arr(encode_list::<LLMChoice>(views_of(self.choices@)))),
                ("model"@, JsonVal::Str(self.model@)),
                ("usage"@, LLMUsage::encode_spec(self.usage)),
                ("system_fingerprint"@, JsonVal::Str(self.system_fingerprint@)),
                ("object"@, JsonVal::Str(self.object@)),
            ]);
        }
        JsonValue::Obj(fields)
    }

    fn from_json(j: &JsonValue) -> (r: Option<LLMResponse>) {
        match j {
            JsonValue::Obj(fields) => {
                let created = obj_get(fields, "created");
                let choices = obj_get(fields, "choices");
                let model = obj_get(fields, "model");
                let usage = obj_get(fields, "usage");
                let system_fingerprint = obj_get(fields, "system_fingerprint");
                let object = obj_get(fields, "object");
                match (created, choices, model, usage, system_fingerprint, object) {
                    (
                        Some(JsonValue::Int(created)),
                        Some(JsonValue::Arr(choices)),
                        Some(JsonValue::Str(model)),
                        Some(u),
                        Some(JsonValue::Str(system_fingerprint)),
                        Some(JsonValue::Str(object)),
                    ) => match (list_from_json::<LLMChoice>(choices), LLMUsage::from_json(u)) {
                        (Some(choices), Some(usage)) => if 0 <= *created && *created
                            <= u32::MAX as i64 {
                            Some(
                                LLMResponse {
                                    created: *created as u32,
                                    choices,
                                    model: model.clone(),
                                    usage,
                                    system_fingerprint: system_fingerprint.clone(),
                                    object: object.clone(),
                                },
                            )
                        } else {
                            None
                        },
                        _ => None,
                    },
                    _ => None,
                }
            },
            _ => None,
        }
    }
}

/// What decoding the first choice's message text as a typed value yields:
/// the text parsed as JSON, then decoded.
pub open spec fn decoded_output<T: JsonCodec>(resp: LLMResponseV) -> Option<T::V> {
    if resp.choices.len() > 0 {
        match json_parse_of(resp.choices[0].message.content) {
            Some(j) => T::decode_spec(j),
            None => None,
        }
    } else {
        None
    }
}

impl LLMResponse {
    /// The text content of the first choice's message, if any.
    pub fn get_message(&self) -> (r: Option<String>)
        ensures
            match r {
                Some(s) => self@.choices.len() > 0 && s@ == self@.choices[0].message.content,
                None => self@.choices.len() == 0,
            },
    {
        if self.choices.len() > 0 {
            Some(self.choices[0].message.content.clone())
        } else {
            None
        }
    }

    /// The first choice's message text parsed as JSON and decoded as a typed
    /// value; absent when there is no choice, the text is not JSON, or the
    /// JSON does not decode.
    pub fn get_output<T: JsonCodec>(&self) -> (r: Option<T>)
        ensures
            match r {
                Some(x) => decoded_output::<T>(self@) == Some(x@),
                None => decoded_output::<T>(self@) is None,
            },
    {
        match self.get_message() {
            Some(output_str) => match parse_json(output_str.as_str()) {
                Some(j) => T::from_json(&j),
                None => None,
            },
            None => None,
        }
    }
}

} // verus!
