//! Chat messages and the builder that assembles them in order.

use vstd::prelude::*;
use vstd::string::StringExecFns;

use crate::json::{
    fields_view, lemma_fields_view, obj_get, obj_lookup, JsonCodec, JsonVal, JsonValue,
};

verus! {

/// One chat message: a role and its text content.
pub struct LLMMessage {
    pub role: String,
    pub content: String,
}

/// The mathematical content of an `LLMMessage`.
pub struct LLMMessageV {
    pub role: Seq<char>,
    pub content: Seq<char>,
}

impl View for LLMMessage {
    type V = LLMMessageV;

    open spec fn view(&self) -> LLMMessageV {
        LLMMessageV { role: self.role@, content: self.content@ }
    }
}

impl JsonCodec for LLMMessage {
    open spec fn encode_spec(v: LLMMessageV) -> JsonVal {
        JsonVal::Obj(
            seq![("role"@, JsonVal::Str(v.role)), ("content"@, JsonVal::Str(v.content))],
        )
    }

    open spec fn decode_spec(j: JsonVal) -> Option<LLMMessageV> {
        match j {
            JsonVal::Obj(fields) => match (
                obj_lookup(fields, "role"@),
                obj_lookup(fields, "content"@),
            ) {
                (Some(JsonVal::Str(role)), Some(JsonVal::Str(content))) => Some(
                    LLMMessageV { role, content },
                ),
                _ => None,
            },
            _ => None,
        }
    }

    proof fn lemma_codec_round_trip(v: LLMMessageV) {
        reveal_strlit("role");
        reveal_strlit("content");
        let fields = seq![("role"@, JsonVal::Str(v.role)), ("content"@, JsonVal::Str(v.content))];
        assert("role"@ != "content"@) by {
            assert("role"@.len() != "content"@.len());
        }
        assert(obj_lookup(fields, "role"@) == Some(JsonVal::Str(v.role)));
        assert(fields.drop_first() =~= seq![("content"@, JsonVal::Str(v.content))]);
        assert(obj_lookup(fields.drop_first(), "content"@) == Some(JsonVal::Str(v.content)));
        assert(obj_lookup(fields, "content"@) == Some(JsonVal::Str(v.content)));
    }

    fn to_json(&self) -> (j: JsonValue) {
        let mut fields: Vec<(String, JsonValue)> = Vec::new();
        fields.push(("role".to_owned(), JsonValue::Str(self.role.clone())));
        fields.push(("content".to_owned(), JsonValue::Str(self.content.clone())));
        proof {
            lemma_fields_view(fields@);
            assert(fields_view(fields@) =~= seq![
                ("role"@, JsonVal::Str(self.role@)),
                ("content"@, JsonVal::Str(self.content@)),
            ]);
        }
        JsonValue::Obj(fields)
    }

    fn from_json(j: &JsonValue) -> (r: Option<LLMMessage>) {
        match j {
            JsonValue::Obj(fields) => {
                let role = obj_get(fields, "role");
                let content = obj_get(fields, "content");
                match (role, content) {
                    (Some(JsonValue::Str(role)), Some(JsonValue::Str(content))) => Some(
                        LLMMessage { role: role.clone(), content: content.clone() },
                    ),
                    _ => None,
                }
            },
            _ => None,
        }
    }
}

/// Assembles chat messages in the order they are added.
pub struct LLMMessageBuilder {
    messages: Vec<LLMMessage>,
}

impl View for LLMMessageBuilder {
    type V = Seq<LLMMessageV>;

    closed spec fn view(&self) -> Seq<LLMMessageV> {
        crate::json::views_of(self.messages@)
    }
}

impl LLMMessageBuilder {
    pub fn new() -> (b: LLMMessageBuilder)
        ensures
            b@ == Seq::<LLMMessageV>::empty(),
    {
        let b = LLMMessageBuilder { messages: Vec::new() };
        proof {
            assert(b@ =~= Seq::<LLMMessageV>::empty());
        }
        b
    }

    /// Appends a message with the `system` role.
    pub fn add_system_message(self, message: &str) -> (b: LLMMessageBuilder)
        ensures
            b@ == self@.push(LLMMessageV { role: "system"@, content: message@ }),
    {
        let mut b = self;
        b.messages.push(LLMMessage { role: "system".to_owned(), content: message.to_owned() });
        proof {
            assert(b@ =~= old_views_push(b.messages@));
        }
        b
    }

    /// Appends a message with the `user` role.
    pub fn add_user_message(self, message: &str) -> (b: LLMMessageBuilder)
        ensures
            b@ == self@.push(LLMMessageV { role: "user"@, content: message@ }),
    {
        let mut b = self;
        b.messages.push(LLMMessage { role: "user".to_owned(), content: message.to_owned() });
        proof {
            assert(b@ =~= old_views_push(b.messages@));
        }
        b
    }

    /// Hands the assembled messages out, in order.
    pub fn build(self) -> (msgs: Vec<LLMMessage>)
        ensures
            crate::json::views_of(msgs@) == self@,
    {
        self.messages
    }
}

/// The views of a message list ending in its last message: the view of the
/// list is the views of its front, extended by the view of the last.
spec fn old_views_push(messages: Seq<LLMMessage>) -> Seq<LLMMessageV> {
    crate::json::views_of(messages.drop_last()).push(messages.last()@)
}

} // verus!
