//! The JSON shape of the persisted document, and the proof that a
//! document written by the library reads back unchanged.
use vstd::prelude::*;
use vstd::string::*;
use crate::config::{providers_view, AIConfig, AIProvider, ConfigView, ProviderView};
use crate::digits::{all_digits, dec_str, dec_val, lemma_dec_round_trip, parse_u64, u64_to_string};
use crate::errs::CoreError;
use crate::json::{fields_view, items_view, lemma_fields_view, lemma_items_view, obj_get,
obj_lookup, JsonValue, JsonView};
use crate::jsonio::{json_parse, json_pretty, parsed_json, pretty_ok, pretty_text};

verus! {

broadcast use vstd::std_specs::vec::group_vec_axioms, vstd::seq::group_seq_axioms, vstd::string::group_string_axioms;

/// The JSON shape of one provider record, as the document stores it.
pub open spec fn provider_json(p: ProviderView) -> JsonView {
    JsonView::Obj(
        seq![
            ("id"@, JsonView::Str(p.id)),
            ("name"@, JsonView::Str(p.name)),
            ("type"@, JsonView::Str(p.kind)),
            ("api_key"@, JsonView::Str(p.api_key)),
            ("base_url"@, JsonView::Str(p.base_url)),
            ("model"@, JsonView::Str(p.model)),
            (
                "temperature"@,
                match p.temperature {
                    Some(t) => JsonView::Num(t),
                    None => JsonView::Null,
                },
            ),
            (
                "max_tokens"@,
                match p.max_tokens {
                    Some(m) => JsonView::Num(dec_str(m as nat)),
                    None => JsonView::Null,
                },
            ),
            ("enabled"@, JsonView::Bool(p.enabled)),
        ],
    )
}

/// The JSON shape of the provider list.
pub open spec fn providers_json(ps: Seq<ProviderView>) -> Seq<JsonView> {
    Seq::new(ps.len(), |i: int| provider_json(ps[i]))
}

/// The JSON shape of the whole document.
pub open spec fn config_json(c: ConfigView) -> JsonView {
    JsonView::Obj(
        seq![
            ("providers"@, JsonView::Arr(providers_json(c.providers))),
            ("current_provider"@, JsonView::Str(c.current_provider)),
        ],
    )
}

/// A required string field.
pub open spec fn field_str(fs: Seq<(Seq<char>, JsonView)>, key: Seq<char>) -> Option<Seq<char>> {
    match obj_lookup(fs, key) {
        Some(JsonView::Str(s)) => Some(s),
        _ => None,
    }
}

/// An optional number field: absent and `null` both mean "not set".
pub open spec fn field_opt_num(fs: Seq<(Seq<char>, JsonView)>, key: Seq<char>) -> Option<
    Option<Seq<char>>,
> {
    match obj_lookup(fs, key) {
        None => Some(None),
        Some(JsonView::Null) => Some(None),
        Some(JsonView::Num(t)) => Some(Some(t)),
        _ => None,
    }
}

/// An optional unsigned-integer field: absent and `null` both mean "not
/// set"; a number whose literal is not digits that fit is rejected.
pub open spec fn field_opt_u64(fs: Seq<(Seq<char>, JsonView)>, key: Seq<char>) -> Option<
    Option<u64>,
> {
    match obj_lookup(fs, key) {
        None => Some(None),
        Some(JsonView::Null) => Some(None),
        Some(JsonView::Num(t)) => if all_digits(t) && 1 <= t.len() && dec_val(t) <= u64::MAX {
            Some(Some(dec_val(t) as u64))
        } else {
            None
        },
        _ => None,
    }
}

/// A required boolean field.
pub open spec fn field_bool(fs: Seq<(Seq<char>, JsonView)>, key: Seq<char>) -> Option<bool> {
    match obj_lookup(fs, key) {
        Some(JsonView::Bool(b)) => Some(b),
        _ => None,
    }
}

/// Reads one provider record out of its JSON shape.
pub open spec fn parse_provider(j: JsonView) -> Option<ProviderView> {
    match j {
        JsonView::Obj(fs) => if field_str(fs, "id"@) is Some && field_str(fs, "name"@) is Some
            && field_str(fs, "type"@) is Some && field_str(fs, "api_key"@) is Some && field_str(
            fs,
            "base_url"@,
        ) is Some && field_str(fs, "model"@) is Some && field_opt_num(fs, "temperature"@) is Some
            && field_opt_u64(fs, "max_tokens"@) is Some && field_bool(fs, "enabled"@) is Some {
            Some(
                ProviderView {
                    id: field_str(fs, "id"@).unwrap(),
                    name: field_str(fs, "name"@).unwrap(),
                    kind: field_str(fs, "type"@).unwrap(),
                    api_key: field_str(fs, "api_key"@).unwrap(),
                    base_url: field_str(fs, "base_url"@).unwrap(),
                    model: field_str(fs, "model"@).unwrap(),
                    temperature: field_opt_num(fs, "temperature"@).unwrap(),
                    max_tokens: field_opt_u64(fs, "max_tokens"@).unwrap(),
                    enabled: field_bool(fs, "enabled"@).unwrap(),
                },
            )
        } else {
            None
        },
        _ => None,
    }
}

/// Reads the provider list; every element must be a provider record.
pub open spec fn parse_providers(items: Seq<JsonView>) -> Option<Seq<ProviderView>>
    decreases items.len(),
{
    if items.len() == 0 {
        Some(Seq::empty())
    } else {
        match (parse_providers(items.drop_last()), parse_provider(items.last())) {
            (Some(ps), Some(p)) => Some(ps.push(p)),
            _ => None,
        }
    }
}

/// Reads the whole document out of its JSON shape.
pub open spec fn parse_config(j: JsonView) -> Option<ConfigView> {
    match j {
        JsonView::Obj(fs) => match (obj_lookup(fs, "providers"@), field_str(
            fs,
            "current_provider"@,
        )) {
            (Some(JsonView::Arr(items)), Some(cur)) => match parse_providers(items) {
                Some(ps) => Some(ConfigView { providers: ps, current_provider: cur }),
                None => None,
            },
            _ => None,
        },
        _ => None,
    }
}

fn get_str(fields: &Vec<(String, JsonValue)>, key: &str) -> (r: Option<String>)
    ensures
        r matches Some(s) ==> field_str(fields_view(fields@), key@) == Some(s@),
        r is None <==> field_str(fields_view(fields@), key@) is None,
{
    match obj_get(fields, key) {
        Some(v) => match v {
            JsonValue::Str(s) => Some(s.clone()),
            _ => None,
        },
        None => None,
    }
}

fn get_opt_num(fields: &Vec<(String, JsonValue)>, key: &str) -> (r: Option<Option<String>>)
    ensures
        r matches Some(o) ==> (field_opt_num(fields_view(fields@), key@) matches Some(o2) && (
        match o {
            Some(t) => o2 == Some(t@),
            None => o2 is None,
        })),
        r is None <==> field_opt_num(fields_view(fields@), key@) is None,
{
    match obj_get(fields, key) {
        Some(v) => match v {
            JsonValue::Null => Some(None),
            JsonValue::Num(t) => Some(Some(t.clone())),
            _ => None,
        },
        None => Some(None),
    }
}

fn get_opt_u64(fields: &Vec<(String, JsonValue)>, key: &str) -> (r: Option<Option<u64>>)
    ensures
        r == field_opt_u64(fields_view(fields@), key@),
{
    match obj_get(fields, key) {
        Some(v) => match v {
            JsonValue::Null => Some(None),
            JsonValue::Num(t) => match parse_u64(t.as_str()) {
                Some(m) => Some(Some(m)),
                None => None,
            },
            _ => None,
        },
        None => Some(None),
    }
}

fn get_bool(fields: &Vec<(String, JsonValue)>, key: &str) -> (r: Option<bool>)
    ensures
        r == field_bool(fields_view(fields@), key@),
{
    match obj_get(fields, key) {
        Some(v) => match v {
            JsonValue::Bool(b) => Some(*b),
            _ => None,
        },
        None => None,
    }
}

/// Renders one provider record in its JSON shape.
pub fn provider_to_json(p: &AIProvider) -> (j: JsonValue)
    ensures
        j@ == provider_json(p@),
{
    let mut fields: Vec<(String, JsonValue)> = Vec::new();
    fields.push((String::from_str("id"), JsonValue::Str(p.id.clone())));
    fields.push((String::from_str("name"), JsonValue::Str(p.name.clone())));
    fields.push((String::from_str("type"), JsonValue::Str(p.kind.clone())));
    fields.push((String::from_str("api_key"), JsonValue::Str(p.api_key.clone())));
    fields.push((String::from_str("base_url"), JsonValue::Str(p.base_url.clone())));
    fields.push((String::from_str("model"), JsonValue::Str(p.model.clone())));
    let temperature = match &p.temperature {
        Some(t) => JsonValue::Num(t.clone()),
        None => JsonValue::Null,
    };
    fields.push((String::from_str("temperature"), temperature));
    let max_tokens = match p.max_tokens {
        Some(m) => JsonValue::Num(u64_to_string(m)),
        None => JsonValue::Null,
    };
    fields.push((String::from_str("max_tokens"), max_tokens));
    fields.push((String::from_str("enabled"), JsonValue::Bool(p.enabled)));
    let ghost gf = fields@;
    let j = JsonValue::Obj(fields);
    proof {
        lemma_fields_view(gf);
        let want = provider_json(p@)->Obj_0;
        assert(fields_view(gf)[0] =~~= want[0]);
        assert(fields_view(gf)[1] =~~= want[1]);
        assert(fields_view(gf)[2] =~~= want[2]);
        assert(fields_view(gf)[3] =~~= want[3]);
        assert(fields_view(gf)[4] =~~= want[4]);
        assert(fields_view(gf)[5] =~~= want[5]);
        assert(fields_view(gf)[6] =~~= want[6]);
        assert(fields_view(gf)[7] =~~= want[7]);
        assert(fields_view(gf)[8] =~~= want[8]);
        assert(fields_view(gf) =~~= want);
        assert(j@ == JsonView::Obj(fields_view(gf)));
    }
    j
}

/// Renders the whole document in its JSON shape.
pub fn config_to_json(c: &AIConfig) -> (j: JsonValue)
    ensures
        j@ == config_json(c@),
{
    let mut items: Vec<JsonValue> = Vec::new();
    let n = c.providers.len();
    let mut i: usize = 0;
    while i < n
        invariant
            0 <= i <= n,
            n == c.providers@.len(),
            items@.len() == i,
            forall|k: int| 0 <= k < i ==> (#[trigger] items@[k])@ == provider_json(c@.providers[k]),
        decreases n - i,
    {
        let pj = provider_to_json(&c.providers[i]);
        items.push(pj);
        i = i + 1;
    }
    proof {
        lemma_items_view(items@);
        assert(items_view(items@) =~= providers_json(c@.providers));
    }
    let ghost gi = items@;
    let mut fields: Vec<(String, JsonValue)> = Vec::new();
    fields.push((String::from_str("providers"), JsonValue::Arr(items)));
    fields.push((String::from_str("current_provider"), JsonValue::Str(c.current_provider.clone())));
    let ghost gf = fields@;
    let j = JsonValue::Obj(fields);
    proof {
        lemma_fields_view(gf);
        let want = config_json(c@)->Obj_0;
        assert(fields_view(gf)[0] =~~= want[0]);
        assert(fields_view(gf)[1] =~~= want[1]);
        assert(fields_view(gf) =~~= want);
        assert(j@ == JsonView::Obj(fields_view(gf)));
    }
    j
}

/// Reads one provider record; `None` exactly where the shape is wrong.
pub fn provider_from_json(j: &JsonValue) -> (r: Option<AIProvider>)
    ensures
        r is Some <==> parse_provider(j@) is Some,
        r matches Some(p) ==> parse_provider(j@) == Some(p@),
{
    match j {
        JsonValue::Obj(fields) => {
            let id = get_str(fields, "id");
            let name = get_str(fields, "name");
            let kind = get_str(fields, "type");
            let api_key = get_str(fields, "api_key");
            let base_url = get_str(fields, "base_url");
            let model = get_str(fields, "model");
            let temperature = get_opt_num(fields, "temperature");
            let max_tokens = get_opt_u64(fields, "max_tokens");
            let enabled = get_bool(fields, "enabled");
            match (id, name, kind, api_key, base_url, model, temperature, max_tokens, enabled) {
                (
                    Some(id),
                    Some(name),
                    Some(kind),
                    Some(api_key),
                    Some(base_url),
                    Some(model),
                    Some(temperature),
                    Some(max_tokens),
                    Some(enabled),
                ) => Some(
                    AIProvider {
                        id,
                        name,
                        kind,
                        api_key,
                        base_url,
                        model,
                        temperature,
                        max_tokens,
                        enabled,
                    },
                ),
                _ => None,
            }
        },
        _ => None,
    }
}

proof fn lemma_parse_providers_none(items: Seq<JsonView>, i: int)
    requires
        0 <= i < items.len(),
        parse_provider(items[i]) is None,
    ensures
        parse_providers(items) is None,
    decreases items.len(),
{
    if i == items.len() - 1 {
        assert(items.last() == items[i]);
    } else {
        assert(items.drop_last()[i] == items[i]);
        lemma_parse_providers_none(items.drop_last(), i);
    }
}

/// The error for config text that is valid JSON but not a document of the
/// expected shape.
fn shape_err() -> (e: CoreError)
    ensures
        e matches CoreError::Parse(m) && m@
            == "Failed to parse config: unexpected document shape"@,
{
    CoreError::Parse(String::from_str("Failed to parse config: unexpected document shape"))
}

/// Reads the whole document; fails with a parse error exactly where the
/// text is not a document of the expected shape.
pub fn config_from_json(j: &JsonValue) -> (r: Result<AIConfig, CoreError>)
    ensures
        r is Ok <==> parse_config(j@) is Some,
        r matches Ok(c) ==> parse_config(j@) == Some(c@),
        r matches Err(e) ==> (e matches CoreError::Parse(m) && m@
            == "Failed to parse config: unexpected document shape"@),
{
    match j {
        JsonValue::Obj(fields) => {
            let cur = match get_str(fields, "current_provider") {
                Some(cur) => cur,
                None => {
                    return Err(shape_err());
                },
            };
            let items = match obj_get(fields, "providers") {
                Some(v) => match v {
                    JsonValue::Arr(items) => items,
                    _ => {
                        return Err(shape_err());
                    },
                },
                None => {
                    return Err(shape_err());
                },
            };
            let ghost ivs = items_view(items@);
            proof {
                lemma_items_view(items@);
                assert(ivs.subrange(0, 0).len() == 0);
                assert(parse_providers(ivs.subrange(0, 0)) == Some(Seq::<ProviderView>::empty()));
            }
            let mut providers: Vec<AIProvider> = Vec::new();
            proof {
                assert(providers_view(providers@) =~= Seq::<ProviderView>::empty());
            }
            let n = items.len();
            let mut i: usize = 0;
            while i < n
                invariant
                    0 <= i <= n,
                    n == items@.len(),
                    ivs == items_view(items@),
                    ivs.len() == n,
                    forall|k: int| 0 <= k < n ==> ivs[k] == (#[trigger] items@[k])@,
                    providers@.len() == i,
                    parse_providers(ivs.subrange(0, i as int)) == Some(
                        providers_view(providers@),
                    ),
                    j@ == JsonView::Obj(fields_view(fields@)),
                    obj_lookup(fields_view(fields@), "providers"@) == Some(JsonView::Arr(ivs)),
                    field_str(fields_view(fields@), "current_provider"@) == Some(cur@),
                decreases n - i,
            {
                let p = match provider_from_json(&items[i]) {
                    Some(p) => p,
                    None => {
                        proof {
                            assert(parse_provider(ivs[i as int]) is None);
                            lemma_parse_providers_none(ivs, i as int);
                            assert(parse_providers(ivs) is None);
                            assert(parse_config(j@) is None);
                        }
                        return Err(shape_err());
                    },
                };
                let ghost pv0 = providers@;
                providers.push(p);
                i = i + 1;
                proof {
                    let pre = ivs.subrange(0, i - 1);
                    let now = ivs.subrange(0, i as int);
                    assert(now.drop_last() =~= pre);
                    assert(now.last() == ivs[i - 1]);
                    assert(providers_view(providers@) =~= providers_view(pv0).push(
                        providers@.last()@,
                    ));
                    assert(parse_providers(now) == Some(providers_view(providers@)));
                }
            }
            proof {
                assert(ivs.subrange(0, n as int) =~= ivs);
            }
            let c = AIConfig { providers, current_provider: cur };
            proof {
                assert(parse_config(j@) matches Some(cv) && cv =~= c@);
            }
            Ok(c)
        },
        _ => Err(shape_err()),
    }
}

/// A document rendered by the library reads back as the same document.
pub proof fn lemma_provider_round_trip(p: ProviderView)
    ensures
        parse_provider(provider_json(p)) == Some(p),
{
    reveal_strlit("id");
    reveal_strlit("name");
    reveal_strlit("type");
    reveal_strlit("api_key");
    reveal_strlit("base_url");
    reveal_strlit("model");
    reveal_strlit("temperature");
    reveal_strlit("max_tokens");
    reveal_strlit("enabled");
    if p.max_tokens is Some {
        lemma_dec_round_trip(p.max_tokens.unwrap() as nat);
    }
    reveal_with_fuel(obj_lookup, 12);
    let fs = provider_json(p)->Obj_0;
    assert(fs.len() == 9);
    assert(fs[0].0 == "id"@);
    assert(fs[1].0 == "name"@);
    assert(fs[2].0 == "type"@);
    assert(fs[3].0 == "api_key"@);
    assert(fs[4].0 == "base_url"@);
    assert(fs[5].0 == "model"@);
    assert(fs[6].0 == "temperature"@);
    assert(fs[7].0 == "max_tokens"@);
    assert(fs[8].0 == "enabled"@);
    // The two key pairs of equal length differ in their first character;
    // naming that character lets the solver tell the keys apart.
    assert("name"@[0] == 'n');
    assert("type"@[0] == 't');
    assert("api_key"@[0] == 'a');
    assert("enabled"@[0] == 'e');
    assert(obj_lookup(fs, "id"@) == Some(fs[0].1));
    assert(obj_lookup(fs, "name"@) == Some(fs[1].1));
    assert(obj_lookup(fs, "type"@) == Some(fs[2].1));
    assert(obj_lookup(fs, "api_key"@) == Some(fs[3].1));
    assert(obj_lookup(fs, "base_url"@) == Some(fs[4].1));
    assert(obj_lookup(fs, "model"@) == Some(fs[5].1));
    assert(obj_lookup(fs, "temperature"@) == Some(fs[6].1));
    assert(obj_lookup(fs, "max_tokens"@) == Some(fs[7].1));
    assert(obj_lookup(fs, "enabled"@) == Some(fs[8].1));
    assert(parse_provider(provider_json(p)) matches Some(q) && q =~= p);
}

proof fn lemma_providers_round_trip(ps: Seq<ProviderView>)
    ensures
        parse_providers(providers_json(ps)) == Some(ps),
    decreases ps.len(),
{
    let js = providers_json(ps);
    if ps.len() == 0 {
        assert(parse_providers(js) == Some(Seq::<ProviderView>::empty()));
        assert(ps =~= Seq::<ProviderView>::empty());
    } else {
        lemma_providers_round_trip(ps.drop_last());
        assert(js.drop_last() =~= providers_json(ps.drop_last()));
        assert(js.last() == provider_json(ps.last()));
        lemma_provider_round_trip(ps.last());
        assert(parse_providers(js) == Some(ps.drop_last().push(ps.last())));
        assert(ps.drop_last().push(ps.last()) =~= ps);
    }
}

/// Round trip: a document written in its JSON shape reads back with every
/// field value unchanged.
pub proof fn lemma_config_round_trip(c: ConfigView)
    ensures
        parse_config(config_json(c)) == Some(c),
{
    reveal_strlit("providers");
    reveal_strlit("current_provider");
    lemma_providers_round_trip(c.providers);
    reveal_with_fuel(obj_lookup, 4);
    let fs = config_json(c)->Obj_0;
    assert(fs.len() == 2);
    assert(fs[0].0 == "providers"@);
    assert(fs[1].0 == "current_provider"@);
    assert(obj_lookup(fs, "providers"@) == Some(fs[0].1));
    assert(obj_lookup(fs, "current_provider"@) == Some(fs[1].1));
    assert(parse_config(config_json(c)) matches Some(c2) && c2 =~= c);
}

/// Renders the document as pretty JSON text, as the config file stores it.
pub fn config_to_text(c: &AIConfig) -> (r: Result<String, CoreError>)
    ensures
        r is Ok <==> pretty_ok(config_json(c@)),
        r matches Ok(t) ==> t@ == pretty_text(config_json(c@)),
        r matches Err(e) ==> e matches CoreError::Parse(_),
{
    let j = config_to_json(c);
    match json_pretty(&j) {
        Ok(t) => Ok(t),
        Err(m) => Err(CoreError::Parse(prefix_msg("Failed to serialize config: ", m))),
    }
}

/// Reads the document from config-file text.
pub fn config_from_text(s: &str) -> (r: Result<AIConfig, CoreError>)
    ensures
        r is Ok <==> (parsed_json(s@) matches Some(j) && parse_config(j) is Some),
        r matches Ok(c) ==> (parsed_json(s@) matches Some(j) && parse_config(j) == Some(c@)),
        r matches Err(e) ==> e matches CoreError::Parse(_),
{
    match json_parse(s) {
        Ok(j) => config_from_json(&j),
        Err(m) => Err(CoreError::Parse(prefix_msg("Failed to parse config: ", m))),
    }
}

/// Joins an error-context prefix with a message.
fn prefix_msg(prefix: &str, m: String) -> (r: String)
    ensures
        r@ == prefix@ + m@,
{
    let mut r = String::from_str(prefix);
    r.append(m.as_str());
    r
}

} // verus!
