//! The compute half of the mind-map file commands: documents are opaque
//! JSON values round-tripped verbatim; the caller does the actual file
//! reads and writes. Also the placeholder mind-map analytics.
use vstd::prelude::*;
use vstd::string::*;
use crate::errs::CoreError;
use crate::json::{fields_view, lemma_fields_view, JsonValue, JsonView};
use crate::jsonio::{json_parse, json_pretty, parsed_json, pretty_ok, pretty_text};

verus! {

broadcast use vstd::std_specs::vec::group_vec_axioms, vstd::seq::group_seq_axioms;

/// Parses the text of a mind-map file into a document; fails as a parse
/// error exactly where the text is not valid JSON.
pub fn load_mindmap_text(content: &str) -> (r: Result<JsonValue, CoreError>)
    ensures
        r is Ok <==> parsed_json(content@) is Some,
        r matches Ok(j) ==> Some(j@) == parsed_json(content@),
        r matches Err(e) ==> e matches CoreError::Parse(_),
{
    match json_parse(content) {
        Ok(j) => Ok(j),
        Err(m) => {
            let mut msg = String::from_str("Failed to parse: ");
            msg.append(m.as_str());
            Err(CoreError::Parse(msg))
        },
    }
}

/// The compute half of saving a mind-map: checks that a path was
/// supplied and renders the document as pretty JSON; the caller writes
/// the returned text to the returned path.
pub fn render_mindmap(data: &JsonValue, path: Option<String>) -> (r: Result<
    (String, String),
    CoreError,
>)
    ensures
        path is None ==> (r matches Err(e) && (e matches CoreError::Validation(m) && m@
            == "File path required"@)),
        path is Some ==> (r is Ok <==> pretty_ok(data@)),
        r matches Ok(p) ==> (path matches Some(q) && p.0@ == q@ && p.1@ == pretty_text(data@)),
        r matches Err(e) ==> (e matches CoreError::Validation(_) || e matches CoreError::Parse(_)),
{
    let p = match path {
        Some(p) => p,
        None => {
            return Err(CoreError::Validation(String::from_str("File path required")));
        },
    };
    match json_pretty(data) {
        Ok(text) => Ok((p, text)),
        Err(m) => {
            let mut msg = String::from_str("Failed to serialize: ");
            msg.append(m.as_str());
            Err(CoreError::Parse(msg))
        },
    }
}

/// Renders any document as pretty JSON text.
pub fn render_json(data: &JsonValue) -> (r: Result<String, CoreError>)
    ensures
        r is Ok <==> pretty_ok(data@),
        r matches Ok(t) ==> t@ == pretty_text(data@),
        r matches Err(e) ==> e matches CoreError::Parse(_),
{
    match json_pretty(data) {
        Ok(text) => Ok(text),
        Err(m) => {
            let mut msg = String::from_str("Failed to serialize: ");
            msg.append(m.as_str());
            Err(CoreError::Parse(msg))
        },
    }
}

/// The fixed shape the placeholder analytics returns: a completeness
/// score of 50 and an empty suggestion list.
pub open spec fn spec_analysis() -> JsonView {
    JsonView::Obj(
        seq![
            ("completeness"@, JsonView::Num("50"@)),
            ("suggestions"@, JsonView::Arr(Seq::empty())),
        ],
    )
}

/// Placeholder analytics: returns the fixed-shape result without calling
/// the chat client.
pub fn analyze_mindmap(_data: &JsonValue, _provider_id: &str) -> (r: JsonValue)
    ensures
        r@ == spec_analysis(),
{
    let empty: Vec<JsonValue> = Vec::new();
    let mut fields: Vec<(String, JsonValue)> = Vec::new();
    fields.push((String::from_str("completeness"), JsonValue::Num(String::from_str("50"))));
    fields.push((String::from_str("suggestions"), JsonValue::Arr(empty)));
    let ghost gf = fields@;
    let r = JsonValue::Obj(fields);
    proof {
        lemma_fields_view(gf);
        assert(fields_view(gf)[1].1->Arr_0 =~= Seq::<JsonView>::empty());
        assert(fields_view(gf) =~~= spec_analysis()->Obj_0);
        assert(r@ == JsonView::Obj(fields_view(gf)));
    }
    r
}

} // verus!
