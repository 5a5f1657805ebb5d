//! The library's JSON document tree. Numbers are kept as their literal
//! text so that documents round-trip without loss; object fields keep
//! their order.
use vstd::prelude::*;
use vstd::string::*;

verus! {

broadcast use vstd::std_specs::vec::group_vec_axioms, vstd::seq::group_seq_axioms;

/// The ghost shape of a JSON document.
#[verifier::ext_equal]
pub enum JsonView {
    Null,
    Bool(bool),
    /// A number, as its literal text.
    Num(Seq<char>),
    Str(Seq<char>),
    Arr(Seq<JsonView>),
    Obj(Seq<(Seq<char>, JsonView)>),
}

/// A JSON document.
#[derive(Debug, PartialEq, Eq)]
pub enum JsonValue {
    Null,
    Bool(bool),
    /// A number, kept as its literal text (for example `0.7` or `2000`).
    Num(String),
    Str(String),
    Arr(Vec<JsonValue>),
    Obj(Vec<(String, JsonValue)>),
}

/// The ghost shape of a document.
pub open spec fn json_view(j: JsonValue) -> JsonView
    decreases j,
    via json_view_decreases
{
    match j {
        JsonValue::Null => JsonView::Null,
        JsonValue::Bool(b) => JsonView::Bool(b),
        JsonValue::Num(t) => JsonView::Num(t@),
        JsonValue::Str(s) => JsonView::Str(s@),
        JsonValue::Arr(items) => JsonView::Arr(items_view(items@)),
        JsonValue::Obj(fields) => JsonView::Obj(fields_view(fields@)),
    }
}

/// The ghost shape of a sequence of array elements.
pub open spec fn items_view(items: Seq<JsonValue>) -> Seq<JsonView>
    decreases items,
{
    if items.len() == 0 {
        Seq::empty()
    } else {
        seq![json_view(items[0])] + items_view(items.subrange(1, items.len() as int))
    }
}

/// The ghost shape of a sequence of object fields.
pub open spec fn fields_view(fields: Seq<(String, JsonValue)>) -> Seq<(Seq<char>, JsonView)>
    decreases fields,
    via fields_view_decreases
{
    if fields.len() == 0 {
        Seq::empty()
    } else {
        seq![(fields[0].0@, json_view(fields[0].1))] + fields_view(
            fields.subrange(1, fields.len() as int),
        )
    }
}

#[via_fn]
proof fn json_view_decreases(j: JsonValue) {
    match j {
        JsonValue::Arr(items) => {
            assert(decreases_to!(j => items));
            assert(decreases_to!(items => items@));
        },
        JsonValue::Obj(fields) => {
            assert(decreases_to!(j => fields));
            assert(decreases_to!(fields => fields@));
        },
        _ => {},
    }
}

#[via_fn]
proof fn fields_view_decreases(fields: Seq<(String, JsonValue)>) {
    if fields.len() > 0 {
        let head = fields[0];
        assert(decreases_to!(fields => head));
        assert(decreases_to!(head => head.1));
    }
}

impl View for JsonValue {
    type V = JsonView;

    open spec fn view(&self) -> JsonView {
        json_view(*self)
    }
}

/// `items_view` maps the sequence element by element.
pub broadcast proof fn lemma_items_view(items: Seq<JsonValue>)
    ensures
        (#[trigger] items_view(items)).len() == items.len(),
        forall|i: int|
            #![trigger items_view(items)[i]]
            #![trigger items[i]]
            0 <= i < items.len() ==> items_view(items)[i] == json_view(items[i]),
    decreases items.len(),
{
    if items.len() > 0 {
        lemma_items_view(items.subrange(1, items.len() as int));
        assert forall|i: int| 0 <= i < items.len() implies items_view(items)[i] == json_view(
            items[i],
        ) by {
            if i > 0 {
                assert(items.subrange(1, items.len() as int)[i - 1] == items[i]);
            }
        }
    }
}

/// `fields_view` maps the sequence field by field.
pub broadcast proof fn lemma_fields_view(fields: Seq<(String, JsonValue)>)
    ensures
        (#[trigger] fields_view(fields)).len() == fields.len(),
        forall|i: int|
            #![trigger fields_view(fields)[i]]
            #![trigger fields[i]]
            0 <= i < fields.len() ==> fields_view(fields)[i] == (fields[i].0@, json_view(
                fields[i].1,
            )),
    decreases fields.len(),
{
    if fields.len() > 0 {
        lemma_fields_view(fields.subrange(1, fields.len() as int));
        assert forall|i: int| 0 <= i < fields.len() implies fields_view(fields)[i] == (
            fields[i].0@,
            json_view(fields[i].1),
        ) by {
            if i > 0 {
                assert(fields.subrange(1, fields.len() as int)[i - 1] == fields[i]);
            }
        }
    }
}

/// The value of the first field with the given key, if any.
pub open spec fn obj_lookup(fields: Seq<(Seq<char>, JsonView)>, key: Seq<char>) -> Option<
    JsonView,
>
    decreases fields.len(),
{
    if fields.len() == 0 {
        None
    } else if fields[0].0 == key {
        Some(fields[0].1)
    } else {
        obj_lookup(fields.drop_first(), key)
    }
}

/// Character-by-character string equality.
pub fn str_eq(a: &str, b: &str) -> (r: bool)
    ensures
        r == (a@ == b@),
{
    let alen = a.unicode_len();
    let blen = b.unicode_len();
    if alen != blen {
        return false;
    }
    let mut i: usize = 0;
    while i < alen
        invariant
            0 <= i <= alen,
            alen == a@.len(),
            alen == b@.len(),
            forall|k: int| 0 <= k < i ==> a@[k] == b@[k],
        decreases alen - i,
    {
        if a.get_char(i) != b.get_char(i) {
            return false;
        }
        i = i + 1;
    }
    proof {
        assert(a@ =~= b@);
    }
    true
}

proof fn lemma_obj_lookup_skip(fields: Seq<(Seq<char>, JsonView)>, key: Seq<char>, i: int)
    requires
        0 <= i < fields.len(),
        forall|k: int| 0 <= k < i ==> (#[trigger] fields[k]).0 != key,
    ensures
        obj_lookup(fields, key) == obj_lookup(fields.skip(i), key),
    decreases i,
{
    if i > 0 {
        lemma_obj_lookup_skip(fields, key, i - 1);
        assert(fields.skip(i - 1).drop_first() =~= fields.skip(i));
        assert(fields.skip(i - 1)[0] == fields[i - 1]);
    } else {
        assert(fields.skip(0) =~= fields);
    }
}

proof fn lemma_obj_lookup_none(fields: Seq<(Seq<char>, JsonView)>, key: Seq<char>)
    requires
        forall|k: int| 0 <= k < fields.len() ==> (#[trigger] fields[k]).0 != key,
    ensures
        obj_lookup(fields, key) is None,
    decreases fields.len(),
{
    if fields.len() > 0 {
        assert forall|k: int|
            0 <= k < fields.drop_first().len() implies (#[trigger] fields.drop_first()[k]).0
            != key by {
            assert(fields.drop_first()[k] == fields[k + 1]);
        }
        lemma_obj_lookup_none(fields.drop_first(), key);
    }
}

/// Looks up the first field with the given key in an object's field list.
pub fn obj_get<'a>(fields: &'a Vec<(String, JsonValue)>, key: &str) -> (r: Option<&'a JsonValue>)
    ensures
        match r {
            Some(v) => obj_lookup(fields_view(fields@), key@) == Some(v@),
            None => obj_lookup(fields_view(fields@), key@) is None,
        },
{
    proof {
        lemma_fields_view(fields@);
    }
    let ghost fs = fields_view(fields@);
    let mut i: usize = 0;
    while i < fields.len()
        invariant
            0 <= i <= fields.len(),
            fs == fields_view(fields@),
            fs.len() == fields@.len(),
            forall|k: int| 0 <= k < fs.len() ==> #[trigger] fs[k] == (fields@[k].0@, json_view(
                fields@[k].1,
            )),
            forall|k: int| 0 <= k < i ==> (#[trigger] fs[k]).0 != key@,
        decreases fields.len() - i,
    {
        if str_eq(fields[i].0.as_str(), key) {
            proof {
                lemma_obj_lookup_skip(fs, key@, i as int);
                assert(fs.skip(i as int)[0] == fs[i as int]);
            }
            return Some(&fields[i].1);
        }
        i = i + 1;
    }
    proof {
        lemma_obj_lookup_none(fs, key@);
    }
    None
}

} // verus!
