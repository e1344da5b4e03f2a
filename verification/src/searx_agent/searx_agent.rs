//! The search agent: one operation, `search`, that queries its backend —
//! site by site when the agent is configured with site restrictions — and
//! answers with the merged result list.

use vstd::prelude::*;
use vstd::string::StringExecFns;

use crate::agent::{error_val, operation_of, success_val, Action, ActionV, Output, OutputV};
use crate::json::{
    fields_view, lemma_fields_view, lemma_obj_lookup_at, obj_get, obj_lookup, opt_str_val, views_of,
    JsonCodec, JsonVal, JsonValue,
};
use crate::searx_agent::searx::{
    engine_results, search, SearxQuery, SearxResponse, SearxResponseV, SearxResultEntry,
    SearxResultEntryV,
};
use crate::text::{str_eq, views};

verus! {

/// The typed input of the search agent's `search` operation.
pub struct SearchQuery {
    pub terms: String,
    pub lang: Option<String>,
}

/// The mathematical content of a `SearchQuery`.
pub struct SearchQueryV {
    pub terms: Seq<char>,
    pub lang: Option<Seq<char>>,
}

impl View for SearchQuery {
    type V = SearchQueryV;

    open spec fn view(&self) -> SearchQueryV {
        SearchQueryV {
            terms: self.terms@,
            lang: match self.lang {
                Some(ref s) => Some(s@),
                None => None,
            },
        }
    }
}

impl JsonCodec for SearchQuery {
    open spec fn encode_spec(v: SearchQueryV) -> JsonVal {
        JsonVal::Obj(
            seq![("terms"@, JsonVal::Str(v.terms)), ("lang"@, opt_str_val(v.lang))],
        )
    }

    open spec fn decode_spec(j: JsonVal) -> Option<SearchQueryV> {
        match j {
            JsonVal::Obj(fields) => match obj_lookup(fields, "terms"@) {
                Some(JsonVal::Str(terms)) => match obj_lookup(fields, "lang"@) {
                    Some(JsonVal::Str(lang)) => Some(SearchQueryV { terms, lang: Some(lang) }),
                    Some(JsonVal::Null) => Some(SearchQueryV { terms, lang: None }),
                    None => Some(SearchQueryV { terms, lang: None }),
                    _ => None,
                },
                _ => None,
            },
            _ => None,
        }
    }

    proof fn lemma_codec_round_trip(v: SearchQueryV) {
        reveal_strlit("terms");
        reveal_strlit("lang");
        let fields = seq![("terms"@, JsonVal::Str(v.terms)), ("lang"@, opt_str_val(v.lang))];
        assert("terms"@ != "lang"@) by {
            assert("terms"@.len() != "lang"@.len());
        }
        lemma_obj_lookup_at(fields, 0);
        lemma_obj_lookup_at(fields, 1);
    }

    fn to_json(&self) -> (j: JsonValue) {
        let mut fields: Vec<(String, JsonValue)> = Vec::new();
        fields.push(("terms".to_owned(), JsonValue::Str(self.terms.clone())));
        match &self.lang {
            Some(lang) => {
                fields.push(("lang".to_owned(), JsonValue::Str(lang.clone())));
                proof {
                    lemma_fields_view(fields@);
                    assert(self@.lang == Some(lang@));
                    assert(fields_view(fields@) =~= seq![
                        ("terms"@, JsonVal::Str(self.terms@)),
                        ("lang"@, opt_str_val(self@.lang)),
                    ]);
                }
                JsonValue::Obj(fields)
            },
            None => {
                fields.push(("lang".to_owned(), JsonValue::Null));
                proof {
                    lemma_fields_view(fields@);
                    assert(self@.lang is None);
                    assert(fields_view(fields@) =~= seq![
                        ("terms"@, JsonVal::Str(self.terms@)),
                        ("lang"@, opt_str_val(self@.lang)),
                    ]);
                }
                JsonValue::Obj(fields)
            },
        }
    }

    fn from_json(j: &JsonValue) -> (r: Option<SearchQuery>) {
        match j {
            JsonValue::Obj(fields) => {
                let terms = obj_get(fields, "terms");
                let lang = obj_get(fields, "lang");
                match terms {
                    Some(JsonValue::Str(terms)) => match lang {
                        Some(JsonValue::Str(lang)) => Some(
                            SearchQuery { terms: terms.clone(), lang: Some(lang.clone()) },
                        ),
                        Some(JsonValue::Null) => Some(
                            SearchQuery { terms: terms.clone(), lang: None },
                        ),
                        None => Some(SearchQuery { terms: terms.clone(), lang: None }),
                        _ => None,
                    },
                    _ => None,
                }
            },
            _ => None,
        }
    }
}

/// The mathematical content of a `SearxAgent`.
pub struct SearxAgentV {
    pub id: Seq<char>,
    pub endpoint: Seq<char>,
    pub sites: Seq<Seq<char>>,
}

/// A search agent: an id, a backend endpoint, and the sites it restricts
/// its searches to — none meaning the whole web.
pub struct SearxAgent {
    id: String,
    endpoint: String,
    sites: Vec<String>,
}

impl View for SearxAgent {
    type V = SearxAgentV;

    closed spec fn view(&self) -> SearxAgentV {
        SearxAgentV { id: self.id@, endpoint: self.endpoint@, sites: views(self.sites@) }
    }
}

/// The entries of several search responses — one response per configured
/// site — laid end to end, in site order.
pub open spec fn concat_entries(parts: Seq<Seq<SearxResultEntryV>>) -> Seq<SearxResultEntryV>
    decreases parts.len(),
{
    if parts.len() == 0 {
        Seq::empty()
    } else {
        concat_entries(parts.drop_last()) + parts.last()
    }
}

/// The result lists the backend bodies stand for, one per configured site.
pub open spec fn site_bodies_results(bodies: Seq<JsonVal>) -> Seq<Seq<SearxResultEntryV>> {
    Seq::new(bodies.len(), |k: int| engine_results(bodies[k]).results)
}

/// What executing an action against a search agent yields: its one
/// operation decodes a query and answers with whatever the backend
/// returned, or the search error when any backend call failed.
pub open spec fn searx_output(action: ActionV, out: OutputV) -> bool {
    if operation_of(action.id) == "search"@ {
        match <SearchQuery as JsonCodec>::decode_spec(action.payload) {
            Some(_) => (out == error_val("Search Error"@)) || (exists|resp: SearxResponseV|
                resp.success && out == success_val(SearxResponse::encode_spec(resp))),
            None => out == error_val("Unable to get payload"@),
        }
    } else {
        out == error_val("Unknown action"@)
    }
}

impl SearxAgent {
    pub fn new(id: &str, endpoint: &str, sites: Vec<String>) -> (a: SearxAgent)
        ensures
            a@.id == id@,
            a@.endpoint == endpoint@,
            a@.sites == views(sites@),
    {
        SearxAgent { id: id.to_owned(), endpoint: endpoint.to_owned(), sites }
    }

    /// The id the agent registers itself under.
    pub fn get_id(&self) -> (r: String)
        ensures
            r@ == self@.id,
    {
        self.id.clone()
    }

    /// Handler for the `search` operation: one backend search, or — when the
    /// agent is configured with sites — one search per site in order, with
    /// the results laid end to end; any failed call fails the whole search.
    /// Every successful answer reads back from backend bodies as
    /// `engine_results` says: one body without sites, one body per site with
    /// them.
    pub fn search(&self, query: SearchQuery) -> (r: Result<SearxResponse, String>)
        ensures
            match r {
                Ok(resp) => resp@.success && (if self@.sites.len() == 0 {
                    exists|body: JsonVal| resp@ == #[trigger] engine_results(body)
                } else {
                    exists|bodies: Seq<JsonVal>|
                        {
                            &&& bodies.len() == self@.sites.len()
                            &&& (forall|k: int|
                                0 <= k < bodies.len() ==> (#[trigger] engine_results(
                                    bodies[k],
                                )).success)
                            &&& resp@.results == concat_entries(
                                #[trigger] site_bodies_results(bodies),
                            )
                        }
                }),
                Err(m) => m@ == "Search Error"@,
            },
    {
        let mut searx_query = SearxQuery::new(query.terms.as_str());
        match &query.lang {
            Some(lang) => searx_query.set_lang(lang.as_str()),
            None => {},
        }
        if self.sites.is_empty() {
            let results = search(self.endpoint.as_str(), &searx_query);
            if results.success {
                Ok(results)
            } else {
                Err("Search Error".to_owned())
            }
        } else {
            let mut results: Vec<SearxResultEntry> = Vec::new();
            let ghost mut bodies: Seq<JsonVal> = Seq::empty();
            let mut i: usize = 0;
            proof {
                assert(views_of(results@) =~= concat_entries(site_bodies_results(bodies)));
            }
            while i < self.sites.len()
                invariant
                    i <= self.sites@.len(),
                    bodies.len() == i as int,
                    forall|k: int| 0 <= k < i ==> (#[trigger] engine_results(bodies[k])).success,
                    views_of(results@) == concat_entries(site_bodies_results(bodies)),
                decreases self.sites@.len() - i,
            {
                searx_query.set_website(self.sites[i].as_str());
                let mut site_results = search(self.endpoint.as_str(), &searx_query);
                if site_results.success {
                    let ghost b = choose|body: JsonVal|
                        site_results@ == #[trigger] engine_results(body);
                    let ghost resp_v = site_results@;
                    let ghost pre_results = results@;
                    let ghost site_seq = site_results.results@;
                    let ghost prev_bodies = bodies;
                    proof {
                        assert(resp_v == engine_results(b));
                        bodies = bodies.push(b);
                    }
                    results.append(&mut site_results.results);
                    proof {
                        let parts = site_bodies_results(bodies);
                        assert(bodies.drop_last() =~= prev_bodies);
                        assert(parts.drop_last() =~= site_bodies_results(prev_bodies));
                        assert(parts.last() == engine_results(b).results);
                        assert(engine_results(b).results == views_of(site_seq));
                        assert(concat_entries(parts) == concat_entries(parts.drop_last())
                            + parts.last());
                        assert(views_of(results@) =~= views_of(pre_results) + views_of(site_seq));
                        assert(views_of(results@) =~= concat_entries(parts));
                    }
                } else {
                    return Err("Search Error".to_owned());
                }
                i = i + 1;
            }
            let r = SearxResponse { success: true, results };
            proof {
                assert(r@.results == concat_entries(site_bodies_results(bodies)));
            }
            Ok(r)
        }
    }

    /// The dispatch table: operation name, payload decode, handler, wrap.
    pub fn handle(&self, action: &Action) -> (out: Output)
        ensures
            searx_output(action@, out@),
    {
        let name = action.get_name();
        if str_eq(name, "search") {
            match action.get_payload::<SearchQuery>() {
                Ok(query) => match self.search(query) {
                    Ok(response) => Output::new_success(&response),
                    Err(m) => Output::new_error(m.as_str()),
                },
                Err(_) => Output::new_error("Unable to get payload"),
            }
        } else {
            Output::new_error("Unknown action")
        }
    }
}

} // verus!
