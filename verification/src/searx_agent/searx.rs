//! The metasearch query, the URL it turns into, and the parsing of what the
//! backend answers.

use vstd::prelude::*;
use vstd::string::StringExecFns;

use crate::interop::http_get_json;
use crate::json::{
    decode_list, encode_list, fields_view, lemma_elems_view, lemma_fields_view,
    lemma_list_round_trip, lemma_obj_lookup_at, list_from_json, list_to_json, obj_get, obj_lookup,
    views_of, JsonCodec, JsonVal, JsonValue,
};
use crate::text::{dec_str, joined, join, u64_to_string, views};

verus! {

/// The mathematical content of a `SearxQuery`.
pub struct SearxQueryV {
    pub query: Seq<char>,
    pub site: Option<Seq<char>>,
    pub engines: Seq<Seq<char>>,
    pub page: Option<u32>,
    pub lang: Option<Seq<char>>,
}

/// A search request: the terms, and optionally a site restriction, a set of
/// engines, a result page and a language.
pub struct SearxQuery {
    pub query: String,
    pub site: Option<String>,
    pub engines: Vec<String>,
    pub page: Option<u32>,
    pub lang: Option<String>,
}

impl View for SearxQuery {
    type V = SearxQueryV;

    open spec fn view(&self) -> SearxQueryV {
        SearxQueryV {
            query: self.query@,
            site: match self.site {
                Some(ref s) => Some(s@),
                None => None,
            },
            engines: views(self.engines@),
            page: self.page,
            lang: match self.lang {
                Some(ref s) => Some(s@),
                None => None,
            },
        }
    }
}

impl SearxQuery {
    /// A plain query for the given terms.
    pub fn new(query: &str) -> (q: SearxQuery)
        ensures
            q@.query == query@,
            q@.site is None,
            q@.engines == Seq::<Seq<char>>::empty(),
            q@.page is None,
            q@.lang is None,
    {
        let q = SearxQuery {
            query: query.to_owned(),
            site: None,
            engines: Vec::new(),
            page: None,
            lang: None,
        };
        proof {
            assert(q@.engines =~= Seq::<Seq<char>>::empty());
        }
        q
    }

    /// Restricts the query to one site.
    pub fn in_website(self, url: &str) -> (q: SearxQuery)
        ensures
            q@ == (SearxQueryV { site: Some(url@), ..self@ }),
    {
        SearxQuery { site: Some(url.to_owned()), ..self }
    }

    /// Asks for one result page.
    pub fn fetch_page(self, page: u32) -> (q: SearxQuery)
        ensures
            q@ == (SearxQueryV { page: Some(page), ..self@ }),
    {
        SearxQuery { page: Some(page), ..self }
    }

    /// Asks for results in one language.
    pub fn with_lang(self, lang: &str) -> (q: SearxQuery)
        ensures
            q@ == (SearxQueryV { lang: Some(lang@), ..self@ }),
    {
        SearxQuery { lang: Some(lang.to_owned()), ..self }
    }

    /// Sets the language in place.
    pub fn set_lang(&mut self, lang: &str)
        ensures
            final(self)@ == (SearxQueryV { lang: Some(lang@), ..old(self)@ }),
    {
        self.lang = Some(lang.to_owned());
    }

    /// Sets the site restriction in place.
    pub fn set_website(&mut self, url: &str)
        ensures
            final(self)@ == (SearxQueryV { site: Some(url@), ..old(self)@ }),
    {
        self.site = Some(url.to_owned());
    }
}

/// One search result entry; a property the backend left out is the empty
/// string.
pub struct SearxResultEntry {
    pub title: String,
    pub content: String,
    pub url: String,
    pub engine: String,
    pub published_date: String,
}

/// The mathematical content of a `SearxResultEntry`.
pub struct SearxResultEntryV {
    pub title: Seq<char>,
    pub content: Seq<char>,
    pub url: Seq<char>,
    pub engine: Seq<char>,
    pub published_date: Seq<char>,
}

impl View for SearxResultEntry {
    type V = SearxResultEntryV;

    open spec fn view(&self) -> SearxResultEntryV {
        SearxResultEntryV {
            title: self.title@,
            content: self.content@,
            url: self.url@,
            engine: self.engine@,
            published_date: self.published_date@,
        }
    }
}

impl JsonCodec for SearxResultEntry {
    open spec fn encode_spec(v: SearxResultEntryV) -> JsonVal {
        JsonVal::Obj(
            seq![
                ("title"@, JsonVal::Str(v.title)),
                ("content"@, JsonVal::Str(v.content)),
                ("url"@, JsonVal::Str(v.url)),
                ("engine"@, JsonVal::Str(v.engine)),
                ("published_date"@, JsonVal::Str(v.published_date)),
            ],
        )
    }

    open spec fn decode_spec(j: JsonVal) -> Option<SearxResultEntryV> {
        match j {
            JsonVal::Obj(fields) => match (
                obj_lookup(fields, "title"@),
                obj_lookup(fields, "content"@),
                obj_lookup(fields, "url"@),
                obj_lookup(fields, "engine"@),
                obj_lookup(fields, "published_date"@),
            ) {
                (
                    Some(JsonVal::Str(title)),
                    Some(JsonVal::Str(content)),
                    Some(JsonVal::Str(url)),
                    Some(JsonVal::Str(engine)),
                    Some(JsonVal::Str(published_date)),
                ) => Some(SearxResultEntryV { title, content, url, engine, published_date }),
                _ => None,
            },
            _ => None,
        }
    }

    proof fn lemma_codec_round_trip(v: SearxResultEntryV) {
        reveal_strlit("title");
        reveal_strlit("content");
        reveal_strlit("url");
        reveal_strlit("engine");
        reveal_strlit("published_date");
        let fields = seq![
            ("title"@, JsonVal::Str(v.title)),
            ("content"@, JsonVal::Str(v.content)),
            ("url"@, JsonVal::Str(v.url)),
            ("engine"@, JsonVal::Str(v.engine)),
            ("published_date"@, JsonVal::Str(v.published_date)),
        ];
        assert("title"@ != "content"@) by {
            assert("title"@.len() != "content"@.len());
        }
        assert("title"@ != "url"@) by {
            assert("title"@.len() != "url"@.len());
        }
        assert("title"@ != "engine"@) by {
            assert("title"@.len() != "engine"@.len());
        }
        assert("title"@ != "published_date"@) by {
            assert("title"@.len() != "published_date"@.len());
        }
        assert("content"@ != "url"@) by {
            assert("content"@.len() != "url"@.len());
        }
        assert("content"@ != "engine"@) by {
            assert("content"@.len() != "engine"@.len());
        }
        assert("content"@ != "published_date"@) by {
            assert("content"@.len() != "published_date"@.len());
        }
        assert("url"@ != "engine"@) by {
            assert("url"@.len() != "engine"@.len());
        }
        assert("url"@ != "published_date"@) by {
            assert("url"@.len() != "published_date"@.len());
        }
        assert("engine"@ != "published_date"@) by {
            assert("engine"@.len() != "published_date"@.len());
        }
        lemma_obj_lookup_at(fields, 0);
        lemma_obj_lookup_at(fields, 1);
        lemma_obj_lookup_at(fields, 2);
        lemma_obj_lookup_at(fields, 3);
        lemma_obj_lookup_at(fields, 4);
    }

    fn to_json(&self) -> (j: JsonValue) {
        let mut fields: Vec<(String, JsonValue)> = Vec::new();
        fields.push(("title".to_owned(), JsonValue::Str(self.title.clone())));
        fields.push(("content".to_owned(), JsonValue::Str(self.content.clone())));
        fields.push(("url".to_owned(), JsonValue::Str(self.url.clone())));
        fields.push(("engine".to_owned(), JsonValue::Str(self.engine.clone())));
        fields.push(("published_date".to_owned(), JsonValue::Str(self.published_date.clone())));
        proof {
            lemma_fields_view(fields@);
            assert(fields_view(fields@) =~= seq![
                ("title"@, JsonVal::Str(self.title@)),
                ("content"@, JsonVal::Str(self.content@)),
                ("url"@, JsonVal::Str(self.url@)),
                ("engine"@, JsonVal::Str(self.engine@)),
                ("published_date"@, JsonVal::Str(self.published_date@)),
            ]);
        }
        JsonValue::Obj(fields)
    }

    fn from_json(j: &JsonValue) -> (r: Option<SearxResultEntry>) {
        match j {
            JsonValue::Obj(fields) => {
                let title = obj_get(fields, "title");
                let content = obj_get(fields, "content");
                let url = obj_get(fields, "url");
                let engine = obj_get(fields, "engine");
                let published_date = obj_get(fields, "published_date");
                match (title, content, url, engine, published_date) {
                    (
                        Some(JsonValue::Str(title)),
                        Some(JsonValue::Str(content)),
                        Some(JsonValue::Str(url)),
                        Some(JsonValue::Str(engine)),
                        Some(JsonValue::Str(published_date)),
                    ) => Some(
                        SearxResultEntry {
                            title: title.clone(),
                            content: content.clone(),
                            url: url.clone(),
                            engine: engine.clone(),
                            published_date: published_date.clone(),
                        },
                    ),
                    _ => None,
                }
            },
            _ => None,
        }
    }
}

/// A search response: whether the backend answered, and its result entries.
pub struct SearxResponse {
    pub success: bool,
    pub results: Vec<SearxResultEntry>,
}

/// The mathematical content of a `SearxResponse`.
pub struct SearxResponseV {
    pub success: bool,
    pub results: Seq<SearxResultEntryV>,
}

impl View for SearxResponse {
    type V = SearxResponseV;

    open spec fn view(&self) -> SearxResponseV {
        SearxResponseV { success: self.success, results: views_of(self.results@) }
    }
}

impl JsonCodec for SearxResponse {
    open spec fn encode_spec(v: SearxResponseV) -> JsonVal {
        JsonVal::Obj(
            seq![
                ("success"@, JsonVal::Bool(v.success)),
                ("results"@, JsonVal::Arr(encode_list::<SearxResultEntry>(v.results))),
            ],
        )
    }

    open spec fn decode_spec(j: JsonVal) -> Option<SearxResponseV> {
        match j {
            JsonVal::Obj(fields) => match (
                obj_lookup(fields, "success"@),
                obj_lookup(fields, "results"@),
            ) {
                (Some(JsonVal::Bool(success)), Some(JsonVal::Arr(results))) => match decode_list::<
                    SearxResultEntry,
                >(results) {
                    Some(results) => Some(SearxResponseV { success, results }),
                    None => None,
                },
                _ => None,
            },
            _ => None,
        }
    }

    proof fn lemma_codec_round_trip(v: SearxResponseV) {
        reveal_strlit("success");
        reveal_strlit("results");
        let fields = seq![
            ("success"@, JsonVal::Bool(v.success)),
            ("results"@, JsonVal::Arr(encode_list::<SearxResultEntry>(v.results))),
        ];
        assert("success"@ != "results"@) by {
            assert("success"@[0] == 's' && "results"@[0] == 'r');
        }
        lemma_obj_lookup_at(fields, 0);
        lemma_obj_lookup_at(fields, 1);
        lemma_list_round_trip::<SearxResultEntry>(v.results);
    }

    fn to_json(&self) -> (j: JsonValue) {
        let mut fields: Vec<(String, JsonValue)> = Vec::new();
        fields.push(("success".to_owned(), JsonValue::Bool(self.success)));
        fields.push(("results".to_owned(), JsonValue::Arr(list_to_json(&self.results))));
        proof {
            lemma_fields_view(fields@);
            assert(fields_view(fields@) =~= seq![
                ("success"@, JsonVal::Bool(self.success)),
                (
                    "results"@,
                    JsonVal::Arr(encode_list::<SearxResultEntry>(views_of(self.results@))),
                ),
            ]);
        }
        JsonValue::Obj(fields)
    }

    fn from_json(j: &JsonValue) -> (r: Option<SearxResponse>) {
        match j {
            JsonValue::Obj(fields) => {
                let success = obj_get(fields, "success");
                let results = obj_get(fields, "results");
                match (success, results) {
                    (Some(JsonValue::Bool(success)), Some(JsonValue::Arr(results))) => match
                        list_from_json::<SearxResultEntry>(results) {
                        Some(results) => Some(SearxResponse { success: *success, results }),
                        None => None,
                    },
                    _ => None,
                }
            },
            _ => None,
        }
    }
}

/// The string value of a property of a JSON object, or the default when the
/// property is missing or not a string.
pub open spec fn str_prop(j: JsonVal, property: Seq<char>, default_value: Seq<char>) -> Seq<
    char,
> {
    match j {
        JsonVal::Obj(fields) => match obj_lookup(fields, property) {
            Some(JsonVal::Str(s)) => s,
            _ => default_value,
        },
        _ => default_value,
    }
}

/// Reads the string value of a property, falling back to the default.
pub fn get_json_string_property_value(json: &JsonValue, property: &str, default_value: &str) -> (r:
    String)
    ensures
        r@ == str_prop(json@, property@, default_value@),
{
    match json {
        JsonValue::Obj(fields) => match obj_get(fields, property) {
            Some(JsonValue::Str(s)) => s.clone(),
            _ => default_value.to_owned(),
        },
        _ => default_value.to_owned(),
    }
}

/// The result entry a raw backend result stands for: each property read as
/// a string, the empty string where one is missing.
pub open spec fn entry_of(j: JsonVal) -> SearxResultEntryV {
    SearxResultEntryV {
        title: str_prop(j, "title"@, Seq::empty()),
        content: str_prop(j, "content"@, Seq::empty()),
        url: str_prop(j, "url"@, Seq::empty()),
        engine: str_prop(j, "engine"@, Seq::empty()),
        published_date: str_prop(j, "publishedDate"@, Seq::empty()),
    }
}

/// The response a raw backend body stands for: its `results` array read
/// entry by entry, or the failed response when the body has no such array.
pub open spec fn engine_results(j: JsonVal) -> SearxResponseV {
    match j {
        JsonVal::Obj(fields) => match obj_lookup(fields, "results"@) {
            Some(JsonVal::Arr(elems)) => SearxResponseV {
                success: true,
                results: Seq::new(elems.len(), |i: int| entry_of(elems[i])),
            },
            _ => SearxResponseV { success: false, results: Seq::empty() },
        },
        _ => SearxResponseV { success: false, results: Seq::empty() },
    }
}

/// Reads a raw backend body into a response, entry by entry.
pub fn engine_body_to_results(json_body: &JsonValue) -> (r: SearxResponse)
    ensures
        r@ == engine_results(json_body@),
{
    match json_body {
        JsonValue::Obj(fields) => match obj_get(fields, "results") {
            Some(results_value) => match results_value {
                JsonValue::Arr(results_array) => {
                    proof {
                        lemma_elems_view(results_array@);
                    }
                    let mut results_entries: Vec<SearxResultEntry> = Vec::new();
                    let mut i: usize = 0;
                    while i < results_array.len()
                        invariant
                            i <= results_array@.len(),
                            results_entries@.len() == i as int,
                            crate::json::elems_view(results_array@).len()
                                == results_array@.len(),
                            forall|j: int| 0 <= j < results_array@.len() ==> #[trigger]
                                crate::json::elems_view(results_array@)[j]
                                == results_array@[j]@,
                            forall|j: int| 0 <= j < i ==> #[trigger] results_entries@[j]@
                                == entry_of(results_array@[j]@),
                        decreases results_array@.len() - i,
                    {
                        let entry = &results_array[i];
                        let e = SearxResultEntry {
                            title: get_json_string_property_value(entry, "title", ""),
                            content: get_json_string_property_value(entry, "content", ""),
                            url: get_json_string_property_value(entry, "url", ""),
                            engine: get_json_string_property_value(entry, "engine", ""),
                            published_date: get_json_string_property_value(
                                entry,
                                "publishedDate",
                                "",
                            ),
                        };
                        proof {
                            reveal_strlit("");
                            assert(""@ =~= Seq::<char>::empty());
                            assert(e@ == entry_of(results_array@[i as int]@));
                        }
                        results_entries.push(e);
                        i = i + 1;
                    }
                    let r = SearxResponse { success: true, results: results_entries };
                    proof {
                        assert(r@.results =~= engine_results(json_body@).results);
                    }
                    r
                },
                _ => {
                    let r = SearxResponse { success: false, results: Vec::new() };
                    proof {
                        assert(r@.results =~= Seq::<SearxResultEntryV>::empty());
                    }
                    r
                },
            },
            None => {
                let r = SearxResponse { success: false, results: Vec::new() };
                proof {
                    assert(r@.results =~= Seq::<SearxResultEntryV>::empty());
                }
                r
            },
        },
        _ => {
            let r = SearxResponse { success: false, results: Vec::new() };
            proof {
                assert(r@.results =~= Seq::<SearxResultEntryV>::empty());
            }
            r
        },
    }
}

/// The request URL a query turns into: the base, the terms prefixed by the
/// optional site scope and language, the JSON format marker, and the
/// optional engine list and page number.
pub open spec fn search_url(base: Seq<char>, q: SearxQueryV) -> Seq<char> {
    base + "/search?q="@ + (match q.site {
        Some(site) => "site:"@ + site + "%20"@,
        None => Seq::empty(),
    }) + (match q.lang {
        Some(lang) => "&language="@ + lang,
        None => Seq::empty(),
    }) + q.query + "&format=json"@ + (if q.engines.len() > 0 {
        "&engines="@ + joined(q.engines, ","@)
    } else {
        Seq::empty()
    }) + (match q.page {
        Some(page) => "&pageno="@ + dec_str((page + 1) as nat),
        None => Seq::empty(),
    })
}

/// Builds the request URL for one query against one backend.
pub fn build_search_url(engine_url: &str, query: &SearxQuery) -> (r: String)
    ensures
        r@ == search_url(engine_url@, query@),
{
    let mut url = engine_url.to_owned();
    url.append("/search?q=");
    match &query.site {
        Some(site) => {
            url.append("site:");
            url.append(site.as_str());
            url.append("%20");
        },
        None => {},
    }
    match &query.lang {
        Some(lang) => {
            url.append("&language=");
            url.append(lang.as_str());
        },
        None => {},
    }
    url.append(query.query.as_str());
    url.append("&format=json");
    if query.engines.len() > 0 {
        url.append("&engines=");
        let engines = join(&query.engines, ",");
        url.append(engines.as_str());
    }
    match query.page {
        Some(page) => {
            url.append("&pageno=");
            let pageno = u64_to_string(page as u64 + 1);
            url.append(pageno.as_str());
        },
        None => {},
    }
    proof {
        assert(url@ =~= search_url(engine_url@, query@));
    }
    url
}

/// One search against a backend: build the URL, fetch it, and read the
/// body's result list; any transport failure is the failed response. The
/// body is the network's to decide; every body reads back as
/// `engine_results` says.
pub fn search(engine_url: &str, query: &SearxQuery) -> (r: SearxResponse)
    ensures
        (r@ == SearxResponseV { success: false, results: Seq::<SearxResultEntryV>::empty() })
            || (exists|body: JsonVal| r@ == #[trigger] engine_results(body)),
{
    let url = build_search_url(engine_url, query);
    match http_get_json(url.as_str()) {
        Ok(body) => {
            let r = engine_body_to_results(&body);
            proof {
                assert(r@ == engine_results(body@));
            }
            r
        },
        Err(_) => {
            let r = SearxResponse { success: false, results: Vec::new() };
            proof {
                assert(r@.results =~= Seq::<SearxResultEntryV>::empty());
            }
            r
        },
    }
}

} // verus!
