//! The HTTP client that carries one completion request to a language-model
//! backend: it builds the JSON request body around the messages, posts it,
//! and decodes the response envelope.

use vstd::prelude::*;
use vstd::string::StringExecFns;

use crate::interop::http_post_json;
use crate::json::{
    encode_list, fields_view, lemma_fields_view, list_to_json, views_of, JsonCodec, JsonVal,
    JsonValue,
};
use crate::llm_agent::llm_message::{LLMMessage, LLMMessageV};
use crate::llm_agent::llm_response::LLMResponse;

verus! {

/// The mathematical content of an `LLMClient`.
pub struct LLMClientV {
    pub endpoint: Seq<char>,
    pub model: Seq<char>,
    pub api_key: Option<Seq<char>>,
}

/// A backend endpoint, the model asked of it, and an optional bearer key.
pub struct LLMClient {
    endpoint: String,
    model: String,
    api_key: Option<String>,
}

impl View for LLMClient {
    type V = LLMClientV;

    closed spec fn view(&self) -> LLMClientV {
        LLMClientV {
            endpoint: self.endpoint@,
            model: self.model@,
            api_key: match self.api_key {
                Some(k) => Some(k@),
                None => None,
            },
        }
    }
}

/// The JSON body of one completion request: the model, the messages, and —
/// when a structured output is asked for — the response format around the
/// given schema.
pub open spec fn request_body(
    model: Seq<char>,
    messages: Seq<LLMMessageV>,
    output_format: Option<JsonVal>,
) -> JsonVal {
    match output_format {
        Some(format) => JsonVal::Obj(
            seq![
                ("model"@, JsonVal::Str(model)),
                ("messages"@, JsonVal::Arr(encode_list::<LLMMessage>(messages))),
                (
                    "response_format"@,
                    JsonVal::Obj(
                        seq![
                            ("type"@, JsonVal::Str("json_schema"@)),
                            ("json_schema"@, format),
                        ],
                    ),
                ),
            ],
        ),
        None => JsonVal::Obj(
            seq![
                ("model"@, JsonVal::Str(model)),
                ("messages"@, JsonVal::Arr(encode_list::<LLMMessage>(messages))),
            ],
        ),
    }
}

impl LLMClient {
    pub fn new(endpoint: &str, model: &str, api_key: Option<String>) -> (c: LLMClient)
        ensures
            c@.endpoint == endpoint@,
            c@.model == model@,
            c@.api_key == match api_key {
                Some(k) => Some(k@),
                None => None::<Seq<char>>,
            },
    {
        LLMClient { endpoint: endpoint.to_owned(), model: model.to_owned(), api_key }
    }

    /// Builds the request body this client sends for the given messages.
    fn build_request_body(
        &self,
        messages: &Vec<LLMMessage>,
        output_format: Option<&JsonValue>,
    ) -> (body: JsonValue)
        ensures
            body@ == request_body(
                self@.model,
                views_of(messages@),
                match output_format {
                    Some(f) => Some(f@),
                    None => None,
                },
            ),
    {
        let mut fields: Vec<(String, JsonValue)> = Vec::new();
        fields.push(("model".to_owned(), JsonValue::Str(self.model.clone())));
        fields.push(("messages".to_owned(), JsonValue::Arr(list_to_json(messages))));
        match output_format {
            Some(format) => {
                let mut format_fields: Vec<(String, JsonValue)> = Vec::new();
                format_fields.push(("type".to_owned(), JsonValue::Str("json_schema".to_owned())));
                format_fields.push(("json_schema".to_owned(), format.deep_clone()));
                proof {
                    lemma_fields_view(format_fields@);
                    assert(fields_view(format_fields@) =~= seq![
                        ("type"@, JsonVal::Str("json_schema"@)),
                        ("json_schema"@, format@),
                    ]);
                }
                fields.push(("response_format".to_owned(), JsonValue::Obj(format_fields)));
                proof {
                    lemma_fields_view(fields@);
                    assert(fields_view(fields@) =~= seq![
                        ("model"@, JsonVal::Str(self@.model)),
                        (
                            "messages"@,
                            JsonVal::Arr(encode_list::<LLMMessage>(views_of(messages@))),
                        ),
                        (
                            "response_format"@,
                            JsonVal::Obj(
                                seq![
                                    ("type"@, JsonVal::Str("json_schema"@)),
                                    ("json_schema"@, format@),
                                ],
                            ),
                        ),
                    ]);
                }
                JsonValue::Obj(fields)
            },
            None => {
                proof {
                    lemma_fields_view(fields@);
                    assert(fields_view(fields@) =~= seq![
                        ("model"@, JsonVal::Str(self@.model)),
                        (
                            "messages"@,
                            JsonVal::Arr(encode_list::<LLMMessage>(views_of(messages@))),
                        ),
                    ]);
                }
                JsonValue::Obj(fields)
            },
        }
    }

    /// Decodes what the backend answered; a body of the wrong shape is a
    /// recoverable error.
    fn response_from_body(body: &JsonValue) -> (r: Result<LLMResponse, String>)
        ensures
            match r {
                Ok(resp) => LLMResponse::decode_spec(body@) == Some(resp@),
                Err(m) => LLMResponse::decode_spec(body@) is None && m@
                    == "Unable to decode response"@,
            },
    {
        match LLMResponse::from_json(body) {
            Some(resp) => Ok(resp),
            None => Err("Unable to decode response".to_owned()),
        }
    }

    /// One completion request: the body sent is exactly `request_body(...)`,
    /// and what comes back is the network's to decide. Whatever came back,
    /// a successful answer is the decoding of some response body.
    pub fn autocomplete(
        &self,
        messages: &Vec<LLMMessage>,
        output_format: Option<&JsonValue>,
    ) -> (r: Result<LLMResponse, String>)
        ensures
            r matches Ok(resp) ==> exists|body: JsonVal|
                #[trigger] LLMResponse::decode_spec(body) == Some(resp@),
    {
        let body = self.build_request_body(messages, output_format);
        match http_post_json(self.endpoint.as_str(), self.api_key.as_ref(), &body) {
            Ok(response_body) => LLMClient::response_from_body(&response_body),
            Err(e) => Err(e.to_string()),
        }
    }
}

} // verus!
