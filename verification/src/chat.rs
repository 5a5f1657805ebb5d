//! The provider-shaped chat exchange: building the upstream HTTP request
//! for a provider record, and reading the assistant's reply out of the
//! upstream response. The network call itself is the caller's affair; it
//! hands the status and body text back to `extract_reply`.
use vstd::prelude::*;
use vstd::string::*;
use crate::config::{AIProvider, ProviderView};
use crate::digits::{dec_str, u64_to_string};
use crate::errs::CoreError;
use crate::json::{fields_view, items_view, lemma_fields_view, lemma_items_view, obj_get,
obj_lookup, str_eq, JsonValue, JsonView};
use crate::jsonio::{json_parse, parsed_json};

verus! {

broadcast use vstd::std_specs::vec::group_vec_axioms, vstd::seq::group_seq_axioms;

/// A provider-shaped upstream request, ready to be sent as an HTTP POST
/// with a JSON body.
pub struct ChatRequest {
    /// The chat-completions endpoint under the provider's base URL.
    pub url: String,
    /// The authentication headers the provider's kind requires.
    pub headers: Vec<(String, String)>,
    /// The request document: model, one user message, and the generation
    /// parameters (with their defaults filled in).
    pub body: JsonValue,
}

/// Whether a provider kind selects the Anthropic request/response shape;
/// every other kind uses the OpenAI-compatible shape.
pub open spec fn is_anthropic(kind: Seq<char>) -> bool {
    kind == "anthropic"@
}

/// The upstream endpoint for a provider.
pub open spec fn chat_url(p: ProviderView) -> Seq<char> {
    p.base_url + "/chat/completions"@
}

/// The authentication headers for a provider: Anthropic kinds send the
/// API key in `x-api-key` with a pinned `anthropic-version` and no bearer
/// token; every other kind sends `Authorization: Bearer <key>`.
pub open spec fn chat_headers(p: ProviderView) -> Seq<(Seq<char>, Seq<char>)> {
    if is_anthropic(p.kind) {
        seq![("x-api-key"@, p.api_key), ("anthropic-version"@, "2023-06-01"@)]
    } else {
        seq![("Authorization"@, "Bearer "@ + p.api_key)]
    }
}

/// The request document: the provider's model, a single user-role message
/// carrying the prompt, and the provider's temperature and max_tokens
/// with the defaults `0.7` and `2000` where unset.
pub open spec fn chat_body(p: ProviderView, prompt: Seq<char>) -> JsonView {
    JsonView::Obj(
        seq![
            ("model"@, JsonView::Str(p.model)),
            (
                "messages"@,
                JsonView::Arr(
                    seq![
                        JsonView::Obj(
                            seq![
                                ("role"@, JsonView::Str("user"@)),
                                ("content"@, JsonView::Str(prompt)),
                            ],
                        ),
                    ],
                ),
            ),
            (
                "temperature"@,
                JsonView::Num(
                    match p.temperature {
                        Some(t) => t,
                        None => "0.7"@,
                    },
                ),
            ),
            (
                "max_tokens"@,
                JsonView::Num(
                    match p.max_tokens {
                        Some(m) => dec_str(m as nat),
                        None => dec_str(2000),
                    },
                ),
            ),
        ],
    )
}

/// The ghost shape of a header list.
pub open spec fn headers_view(hs: Seq<(String, String)>) -> Seq<(Seq<char>, Seq<char>)> {
    Seq::new(hs.len(), |i: int| (hs[i].0@, hs[i].1@))
}

/// Builds the provider-shaped request for one prompt: endpoint, headers
/// by kind, and the request document.
pub fn build_chat_request(p: &AIProvider, prompt: &str) -> (r: ChatRequest)
    ensures
        r.url@ == chat_url(p@),
        headers_view(r.headers@) == chat_headers(p@),
        r.body@ == chat_body(p@, prompt@),
{
    let url = p.base_url.clone().concat("/chat/completions");
    let mut headers: Vec<(String, String)> = Vec::new();
    if str_eq(p.kind.as_str(), "anthropic") {
        headers.push((String::from_str("x-api-key"), p.api_key.clone()));
        headers.push((String::from_str("anthropic-version"), String::from_str("2023-06-01")));
    } else {
        let bearer = String::from_str("Bearer ").concat(p.api_key.as_str());
        headers.push((String::from_str("Authorization"), bearer));
    }
    proof {
        assert(headers_view(headers@) =~= chat_headers(p@));
    }
    let mut message: Vec<(String, JsonValue)> = Vec::new();
    message.push((String::from_str("role"), JsonValue::Str(String::from_str("user"))));
    message.push((String::from_str("content"), JsonValue::Str(String::from_str(prompt))));
    let ghost gm = message@;
    let mut messages: Vec<JsonValue> = Vec::new();
    messages.push(JsonValue::Obj(message));
    let ghost gms = messages@;
    let temperature = match &p.temperature {
        Some(t) => t.clone(),
        None => String::from_str("0.7"),
    };
    let max_tokens = match p.max_tokens {
        Some(m) => u64_to_string(m),
        None => u64_to_string(2000),
    };
    let mut fields: Vec<(String, JsonValue)> = Vec::new();
    fields.push((String::from_str("model"), JsonValue::Str(p.model.clone())));
    fields.push((String::from_str("messages"), JsonValue::Arr(messages)));
    fields.push((String::from_str("temperature"), JsonValue::Num(temperature)));
    fields.push((String::from_str("max_tokens"), JsonValue::Num(max_tokens)));
    let ghost gf = fields@;
    let body = JsonValue::Obj(fields);
    proof {
        lemma_fields_view(gm);
        lemma_items_view(gms);
        lemma_fields_view(gf);
        let want = chat_body(p@, prompt@)->Obj_0;
        assert(fields_view(gm) =~~= (chat_body(p@, prompt@)->Obj_0[1].1->Arr_0[0])->Obj_0);
        assert(items_view(gms) =~~= chat_body(p@, prompt@)->Obj_0[1].1->Arr_0);
        assert(fields_view(gf)[0] =~~= want[0]);
        assert(fields_view(gf)[1] =~~= want[1]);
        assert(fields_view(gf)[2] =~~= want[2]);
        assert(fields_view(gf)[3] =~~= want[3]);
        assert(fields_view(gf) =~~= want);
        assert(body@ == JsonView::Obj(fields_view(gf)));
    }
    ChatRequest { url, headers, body }
}

/// A success HTTP status.
pub open spec fn spec_is_success(status: u16) -> bool {
    200 <= status < 300
}

/// Where the assistant's reply sits in the upstream response document:
/// `content[0].text` for the Anthropic shape, otherwise
/// `choices[0].message.content`.
pub open spec fn reply_path(kind: Seq<char>, j: JsonView) -> Option<Seq<char>> {
    if is_anthropic(kind) {
        match j {
            JsonView::Obj(fs) => match obj_lookup(fs, "content"@) {
                Some(JsonView::Arr(items)) => if items.len() > 0 {
                    match items[0] {
                        JsonView::Obj(f2) => match obj_lookup(f2, "text"@) {
                            Some(JsonView::Str(s)) => Some(s),
                            _ => None,
                        },
                        _ => None,
                    }
                } else {
                    None
                },
                _ => None,
            },
            _ => None,
        }
    } else {
        match j {
            JsonView::Obj(fs) => match obj_lookup(fs, "choices"@) {
                Some(JsonView::Arr(items)) => if items.len() > 0 {
                    match items[0] {
                        JsonView::Obj(f2) => match obj_lookup(f2, "message"@) {
                            Some(JsonView::Obj(f3)) => match obj_lookup(f3, "content"@) {
                                Some(JsonView::Str(s)) => Some(s),
                                _ => None,
                            },
                            _ => None,
                        },
                        _ => None,
                    }
                } else {
                    None
                },
                _ => None,
            },
            _ => None,
        }
    }
}

/// Reads the assistant's reply out of an upstream response. A non-success
/// status fails with the status and raw body; a body that is not JSON
/// fails as a parse error; a success response without the reply text at
/// the kind's path fails as an empty response.
pub fn extract_reply(kind: &str, status: u16, body: &str) -> (r: Result<String, CoreError>)
    ensures
        !spec_is_success(status) ==> (r matches Err(e) && (e matches CoreError::Upstream {
            status: s,
            body: b,
        } && s == status && b@ == body@)),
        spec_is_success(status) ==> (match parsed_json(body@) {
            None => r matches Err(e) && e matches CoreError::Parse(_),
            Some(j) => match reply_path(kind@, j) {
                Some(text) => r matches Ok(t) && t@ == text,
                None => r matches Err(e) && e is EmptyResponse,
            },
        }),
{
    if !(200 <= status && status < 300) {
        return Err(CoreError::Upstream { status, body: String::from_str(body) });
    }
    let j = match json_parse(body) {
        Ok(j) => j,
        Err(m) => {
            let mut msg = String::from_str("Failed to parse response: ");
            msg.append(m.as_str());
            return Err(CoreError::Parse(msg));
        },
    };
    let anthropic = str_eq(kind, "anthropic");
    match &j {
        JsonValue::Obj(fields) => {
            if anthropic {
                match obj_get(fields, "content") {
                    Some(v) => match v {
                        JsonValue::Arr(items) => {
                            proof {
                                lemma_items_view(items@);
                            }
                            if items.len() > 0 {
                                match &items[0] {
                                    JsonValue::Obj(f2) => match obj_get(f2, "text") {
                                        Some(t) => match t {
                                            JsonValue::Str(s) => Ok(s.clone()),
                                            _ => Err(CoreError::EmptyResponse),
                                        },
                                        None => Err(CoreError::EmptyResponse),
                                    },
                                    _ => Err(CoreError::EmptyResponse),
                                }
                            } else {
                                Err(CoreError::EmptyResponse)
                            }
                        },
                        _ => Err(CoreError::EmptyResponse),
                    },
                    None => Err(CoreError::EmptyResponse),
                }
            } else {
                match obj_get(fields, "choices") {
                    Some(v) => match v {
                        JsonValue::Arr(items) => {
                            proof {
                                lemma_items_view(items@);
                            }
                            if items.len() > 0 {
                                match &items[0] {
                                    JsonValue::Obj(f2) => match obj_get(f2, "message") {
                                        Some(m) => match m {
                                            JsonValue::Obj(f3) => match obj_get(f3, "content") {
                                                Some(t) => match t {
                                                    JsonValue::Str(s) => Ok(s.clone()),
                                                    _ => Err(CoreError::EmptyResponse),
                                                },
                                                None => Err(CoreError::EmptyResponse),
                                            },
                                            _ => Err(CoreError::EmptyResponse),
                                        },
                                        None => Err(CoreError::EmptyResponse),
                                    },
                                    _ => Err(CoreError::EmptyResponse),
                                }
                            } else {
                                Err(CoreError::EmptyResponse)
                            }
                        },
                        _ => Err(CoreError::EmptyResponse),
                    },
                    None => Err(CoreError::EmptyResponse),
                }
            }
        },
        _ => Err(CoreError::EmptyResponse),
    }
}

} // verus!
