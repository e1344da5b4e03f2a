//! The payload model of the envelope protocol: a self-describing, dynamically
//! typed value. An `Action` carries such a value to its target agent, and an
//! `Output` carries one back. The mathematical shape of a value is `JsonVal`;
//! the executable representation is `JsonValue`. Typed payloads move in and
//! out of this representation through the `JsonCodec` trait, whose laws make
//! an encode/decode round trip lossless.

use vstd::prelude::*;

verus! {

/// The mathematical shape of a payload value: the view of a `JsonValue`.
#[verifier::ext_equal]
pub enum JsonVal {
    Null,
    Bool(bool),
    Int(int),
    Str(Seq<char>),
    Arr(Seq<JsonVal>),
    Obj(Seq<(Seq<char>, JsonVal)>),
}

/// A self-describing, dynamically typed payload value. Numbers are 64-bit
/// signed integers; an object is a sequence of key/value fields, looked up
/// by first match.
pub enum JsonValue {
    Null,
    Bool(bool),
    Int(i64),
    Str(String),
    Arr(Vec<JsonValue>),
    Obj(Vec<(String, JsonValue)>),
}

/// The views of the elements of an executable array value.
pub open spec fn elems_view(elems: Seq<JsonValue>) -> Seq<JsonVal>
    decreases elems,
{
    if elems.len() == 0 {
        Seq::empty()
    } else {
        elems_view(elems.subrange(0, elems.len() - 1)).push(elems[elems.len() - 1]@)
    }
}

/// The views of the fields of an executable object value.
pub open spec fn fields_view(fields: Seq<(String, JsonValue)>) -> Seq<(Seq<char>, JsonVal)>
    decreases fields,
    via fields_view_decreases
{
    if fields.len() == 0 {
        Seq::empty()
    } else {
        fields_view(fields.subrange(0, fields.len() - 1)).push(
            (fields[fields.len() - 1].0@, fields[fields.len() - 1].1@),
        )
    }
}

#[via_fn]
proof fn fields_view_decreases(fields: Seq<(String, JsonValue)>) {
    if fields.len() > 0 {
        let last = fields[fields.len() - 1];
        assert(decreases_to!(fields => last));
        assert(decreases_to!(last => last.1));
    }
}

impl View for JsonValue {
    type V = JsonVal;

    open spec fn view(&self) -> JsonVal
        decreases self,
    {
        match self {
            JsonValue::Null => JsonVal::Null,
            JsonValue::Bool(b) => JsonVal::Bool(*b),
            JsonValue::Int(i) => JsonVal::Int(*i as int),
            JsonValue::Str(s) => JsonVal::Str(s@),
            JsonValue::Arr(a) => JsonVal::Arr(elems_view(a@)),
            JsonValue::Obj(o) => JsonVal::Obj(fields_view(o@)),
        }
    }
}

/// `elems_view` is the pointwise view of the elements.
pub proof fn lemma_elems_view(elems: Seq<JsonValue>)
    ensures
        elems_view(elems).len() == elems.len(),
        forall|i: int| 0 <= i < elems.len() ==> #[trigger] elems_view(elems)[i] == elems[i]@,
    decreases elems.len(),
{
    if elems.len() > 0 {
        let prefix = elems.subrange(0, elems.len() - 1);
        lemma_elems_view(prefix);
        assert(elems_view(elems) == elems_view(prefix).push(elems[elems.len() - 1]@));
        assert forall|i: int| 0 <= i < elems.len() implies #[trigger] elems_view(elems)[i]
            == elems[i]@ by {
            if i < elems.len() - 1 {
                assert(elems_view(elems)[i] == elems_view(prefix)[i]);
                assert(prefix[i] == elems[i]);
            }
        }
    }
}

/// `fields_view` is the pointwise view of the fields.
pub proof fn lemma_fields_view(fields: Seq<(String, JsonValue)>)
    ensures
        fields_view(fields).len() == fields.len(),
        forall|i: int| 0 <= i < fields.len() ==> #[trigger] fields_view(fields)[i] == (
            fields[i].0@,
            fields[i].1@,
        ),
    decreases fields.len(),
{
    if fields.len() > 0 {
        let prefix = fields.subrange(0, fields.len() - 1);
        lemma_fields_view(prefix);
        assert(fields_view(fields) == fields_view(prefix).push(
            (fields[fields.len() - 1].0@, fields[fields.len() - 1].1@),
        ));
        assert forall|i: int| 0 <= i < fields.len() implies #[trigger] fields_view(fields)[i] == (
            fields[i].0@,
            fields[i].1@,
        ) by {
            if i < fields.len() - 1 {
                assert(fields_view(fields)[i] == fields_view(prefix)[i]);
                assert(prefix[i] == fields[i]);
            }
        }
    }
}

/// First-match lookup of a key among the fields of an object value.
pub open spec fn obj_lookup(fields: Seq<(Seq<char>, JsonVal)>, key: Seq<char>) -> Option<JsonVal>
    decreases fields.len(),
{
    if fields.len() == 0 {
        None
    } else if fields[0].0 == key {
        Some(fields[0].1)
    } else {
        obj_lookup(fields.drop_first(), key)
    }
}

/// An optional string as a payload value: the string, or null.
pub open spec fn opt_str_val(s: Option<Seq<char>>) -> JsonVal {
    match s {
        Some(s) => JsonVal::Str(s),
        None => JsonVal::Null,
    }
}

/// A field whose key differs from every earlier key is what `obj_lookup`
/// finds for that key.
pub proof fn lemma_obj_lookup_at(fields: Seq<(Seq<char>, JsonVal)>, i: int)
    requires
        0 <= i < fields.len(),
        forall|j: int| 0 <= j < i ==> fields[j].0 != fields[i].0,
    ensures
        obj_lookup(fields, fields[i].0) == Some(fields[i].1),
    decreases i,
{
    if i > 0 {
        let rest = fields.drop_first();
        assert(rest[i - 1] == fields[i]);
        assert forall|j: int| 0 <= j < i - 1 implies (#[trigger] rest[j]).0 != rest[i - 1].0 by {
            assert(rest[j] == fields[j + 1]);
        }
        lemma_obj_lookup_at(rest, i - 1);
    }
}

impl JsonValue {
    /// A structural copy of the value; views are preserved exactly.
    #[verifier::loop_isolation(false)]
    pub fn deep_clone(&self) -> (r: JsonValue)
        ensures
            r@ == self@,
        decreases self,
    {
        match self {
            JsonValue::Null => JsonValue::Null,
            JsonValue::Bool(b) => JsonValue::Bool(*b),
            JsonValue::Int(i) => JsonValue::Int(*i),
            JsonValue::Str(s) => JsonValue::Str(s.clone()),
            JsonValue::Arr(a) => {
                let mut out: Vec<JsonValue> = Vec::new();
                let mut i: usize = 0;
                while i < a.len()
                    invariant
                        i <= a.len(),
                        out@.len() == i as int,
                        forall|j: int| 0 <= j < i ==> #[trigger] out@[j]@ == a@[j]@,
                    decreases a.len() - i,
                {
                    let c = a[i].deep_clone();
                    out.push(c);
                    i = i + 1;
                }
                proof {
                    lemma_elems_view(out@);
                    lemma_elems_view(a@);
                    assert(elems_view(out@) =~= elems_view(a@));
                }
                JsonValue::Arr(out)
            },
            JsonValue::Obj(o) => {
                let mut out: Vec<(String, JsonValue)> = Vec::new();
                let mut i: usize = 0;
                while i < o.len()
                    invariant
                        i <= o.len(),
                        out@.len() == i as int,
                        forall|j: int| 0 <= j < i ==> (#[trigger] out@[j]).0@ == o@[j].0@
                            && out@[j].1@ == o@[j].1@,
                    decreases o.len() - i,
                {
                    let k = o[i].0.clone();
                    let v = o[i].1.deep_clone();
                    out.push((k, v));
                    i = i + 1;
                }
                proof {
                    lemma_fields_view(out@);
                    lemma_fields_view(o@);
                    assert(fields_view(out@) =~= fields_view(o@));
                }
                JsonValue::Obj(out)
            },
        }
    }
}

/// First-match lookup of `key` among executable object fields.
pub fn obj_get<'a>(fields: &'a Vec<(String, JsonValue)>, key: &str) -> (r: Option<&'a JsonValue>)
    ensures
        match r {
            Some(v) => obj_lookup(fields_view(fields@), key@) == Some(v@),
            None => obj_lookup(fields_view(fields@), key@) is None,
        },
{
    proof {
        lemma_fields_view(fields@);
        assert(fields_view(fields@).skip(0) =~= fields_view(fields@));
    }
    let mut i: usize = 0;
    while i < fields.len()
        invariant
            i <= fields.len(),
            fields_view(fields@).len() == fields@.len(),
            forall|j: int| 0 <= j < fields@.len() ==> #[trigger] fields_view(fields@)[j] == (
                fields@[j].0@,
                fields@[j].1@,
            ),
            obj_lookup(fields_view(fields@), key@) == obj_lookup(
                fields_view(fields@).skip(i as int),
                key@,
            ),
        decreases fields.len() - i,
    {
        if crate::text::str_eq(fields[i].0.as_str(), key) {
            proof {
                assert(fields_view(fields@).skip(i as int)[0] == (
                    fields@[i as int].0@,
                    fields@[i as int].1@,
                ));
            }
            return Some(&fields[i].1);
        }
        proof {
            assert(fields_view(fields@).skip(i as int)[0] == (
                fields@[i as int].0@,
                fields@[i as int].1@,
            ));
            assert(fields_view(fields@).skip(i as int).drop_first() =~= fields_view(
                fields@,
            ).skip(i as int + 1));
        }
        i = i + 1;
    }
    proof {
        assert(fields_view(fields@).skip(i as int) =~= Seq::empty());
    }
    None
}

/// A typed payload: a value that moves in and out of the payload model, with
/// a proved round trip. `encode_spec` says what the encoded payload is;
/// `decode_spec` says which payloads decode, and to what.
pub trait JsonCodec: View + Sized {
    spec fn encode_spec(v: Self::V) -> JsonVal;

    spec fn decode_spec(j: JsonVal) -> Option<Self::V>;

    /// Law: decoding an encoded value always gives the value back.
    proof fn lemma_codec_round_trip(v: Self::V)
        ensures
            Self::decode_spec(Self::encode_spec(v)) == Some(v),
    ;

    fn to_json(&self) -> (j: JsonValue)
        ensures
            j@ == Self::encode_spec(self@),
    ;

    fn from_json(j: &JsonValue) -> (r: Option<Self>)
        ensures
            match r {
                Some(x) => Self::decode_spec(j@) == Some(x@),
                None => Self::decode_spec(j@) is None,
            },
    ;
}

/// The views of the elements of a sequence of viewable values.
pub open spec fn views_of<T: View>(s: Seq<T>) -> Seq<T::V> {
    Seq::new(s.len(), |i: int| s[i]@)
}

/// Elementwise encoding of a sequence of typed views.
pub open spec fn encode_list<T: JsonCodec>(vs: Seq<T::V>) -> Seq<JsonVal> {
    Seq::new(vs.len(), |i: int| T::encode_spec(vs[i]))
}

/// Elementwise decoding of an array's elements; any failing element fails
/// the whole list.
pub open spec fn decode_list<T: JsonCodec>(elems: Seq<JsonVal>) -> Option<Seq<T::V>>
    decreases elems.len(),
{
    if elems.len() == 0 {
        Some(Seq::empty())
    } else {
        match (decode_list::<T>(elems.drop_last()), T::decode_spec(elems.last())) {
            (Some(init), Some(x)) => Some(init.push(x)),
            _ => None,
        }
    }
}

/// Law: decoding an encoded list gives the list back.
pub proof fn lemma_list_round_trip<T: JsonCodec>(vs: Seq<T::V>)
    ensures
        decode_list::<T>(encode_list::<T>(vs)) == Some(vs),
    decreases vs.len(),
{
    if vs.len() == 0 {
        assert(encode_list::<T>(vs) =~= Seq::<JsonVal>::empty());
    } else {
        let init = vs.drop_last();
        lemma_list_round_trip::<T>(init);
        T::lemma_codec_round_trip(vs.last());
        let enc = encode_list::<T>(vs);
        assert(enc.drop_last() =~= encode_list::<T>(init));
        assert(enc.last() == T::encode_spec(vs.last()));
        assert(decode_list::<T>(enc) == Some(init.push(vs.last())));
        assert(init.push(vs.last()) =~= vs);
    }
}

/// Encodes each element of a list into an array's elements.
pub fn list_to_json<T: JsonCodec>(items: &Vec<T>) -> (r: Vec<JsonValue>)
    ensures
        elems_view(r@) == encode_list::<T>(views_of(items@)),
{
    let mut r: Vec<JsonValue> = Vec::new();
    let mut i: usize = 0;
    while i < items.len()
        invariant
            i <= items.len(),
            r@.len() == i as int,
            forall|j: int| 0 <= j < i ==> #[trigger] r@[j]@ == T::encode_spec(items@[j]@),
        decreases items.len() - i,
    {
        let v = items[i].to_json();
        r.push(v);
        i = i + 1;
    }
    proof {
        lemma_elems_view(r@);
        assert(elems_view(r@) =~= encode_list::<T>(views_of(items@)));
    }
    r
}

/// Decodes each element of an array into a typed list; any failing element
/// fails the whole list.
pub fn list_from_json<T: JsonCodec>(elems: &Vec<JsonValue>) -> (r: Option<Vec<T>>)
    ensures
        match r {
            Some(v) => decode_list::<T>(elems_view(elems@)) == Some(views_of(v@)),
            None => decode_list::<T>(elems_view(elems@)) is None,
        },
{
    proof {
        lemma_elems_view(elems@);
    }
    let mut r: Vec<T> = Vec::new();
    let mut i: usize = 0;
    while i < elems.len()
        invariant
            i <= elems.len(),
            r@.len() == i as int,
            elems_view(elems@).len() == elems@.len(),
            forall|j: int| 0 <= j < elems@.len() ==> #[trigger] elems_view(elems@)[j]
                == elems@[j]@,
            decode_list::<T>(elems_view(elems@).take(i as int)) == Some(views_of(r@)),
        decreases elems.len() - i,
    {
        proof {
            assert(elems_view(elems@).take(i as int) =~= elems_view(elems@).take(
                i + 1 as int,
            ).drop_last());
        }
        match T::from_json(&elems[i]) {
            Some(x) => {
                let ghost prev = r@;
                r.push(x);
                proof {
                    assert(views_of(r@) =~= views_of(prev).push(x@));
                    assert(elems_view(elems@).take(i + 1 as int).last() == elems@[i as int]@);
                }
            },
            None => {
                proof {
                    lemma_decode_list_fails::<T>(elems_view(elems@), i as int);
                }
                return None;
            },
        }
        i = i + 1;
    }
    proof {
        assert(elems_view(elems@).take(elems@.len() as int) =~= elems_view(elems@));
    }
    Some(r)
}

/// An element that does not decode fails the whole list.
proof fn lemma_decode_list_fails<T: JsonCodec>(elems: Seq<JsonVal>, i: int)
    requires
        0 <= i < elems.len(),
        T::decode_spec(elems[i]) is None,
    ensures
        decode_list::<T>(elems) is None,
    decreases elems.len(),
{
    if i < elems.len() - 1 {
        lemma_decode_list_fails::<T>(elems.drop_last(), i);
    }
}

impl JsonCodec for String {
    open spec fn encode_spec(v: Seq<char>) -> JsonVal {
        JsonVal::Str(v)
    }

    open spec fn decode_spec(j: JsonVal) -> Option<Seq<char>> {
        match j {
            JsonVal::Str(s) => Some(s),
            _ => None,
        }
    }

    proof fn lemma_codec_round_trip(v: Seq<char>) {
    }

    fn to_json(&self) -> (j: JsonValue) {
        JsonValue::Str(self.clone())
    }

    fn from_json(j: &JsonValue) -> (r: Option<String>) {
        match j {
            JsonValue::Str(s) => Some(s.clone()),
            _ => None,
        }
    }
}

impl JsonCodec for i64 {
    open spec fn encode_spec(v: i64) -> JsonVal {
        JsonVal::Int(v as int)
    }

    open spec fn decode_spec(j: JsonVal) -> Option<i64> {
        match j {
            JsonVal::Int(i) => if i64::MIN <= i <= i64::MAX {
                Some(i as i64)
            } else {
                None
            },
            _ => None,
        }
    }

    proof fn lemma_codec_round_trip(v: i64) {
    }

    fn to_json(&self) -> (j: JsonValue) {
        JsonValue::Int(*self)
    }

    fn from_json(j: &JsonValue) -> (r: Option<i64>) {
        match j {
            JsonValue::Int(i) => Some(*i),
            _ => None,
        }
    }
}

} // verus!
