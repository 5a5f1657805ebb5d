//! Node expansion: the templated prompt asking for child-topic
//! suggestions, and the two-tier parse of the model's reply — a strict
//! JSON array of strings first, then a fallback that splits the raw text
//! into non-empty trimmed lines.
use vstd::prelude::*;
use vstd::string::*;
use crate::json::{items_view, lemma_items_view, JsonValue, JsonView};
use crate::jsonio::{json_parse, parsed_json};

verus! {

broadcast use vstd::std_specs::vec::group_vec_axioms, vstd::seq::group_seq_axioms;

/// The whitespace the fallback trims from each line.
pub open spec fn is_ws(c: char) -> bool {
    c == ' ' || c == '\t' || c == '\r' || c == '\n'
}

pub open spec fn trim_start_spec(s: Seq<char>) -> Seq<char>
    decreases s.len(),
{
    if s.len() == 0 {
        s
    } else if is_ws(s[0]) {
        trim_start_spec(s.drop_first())
    } else {
        s
    }
}

pub open spec fn trim_end_spec(s: Seq<char>) -> Seq<char>
    decreases s.len(),
{
    if s.len() == 0 {
        s
    } else if is_ws(s.last()) {
        trim_end_spec(s.drop_last())
    } else {
        s
    }
}

/// A line with its leading and trailing whitespace removed.
pub open spec fn trim_spec(s: Seq<char>) -> Seq<char> {
    trim_end_spec(trim_start_spec(s))
}

/// The index of the first newline, or the length when there is none.
pub open spec fn find_nl(s: Seq<char>) -> int
    decreases s.len(),
{
    if s.len() == 0 {
        0
    } else if s[0] == '\n' {
        0
    } else {
        1 + find_nl(s.drop_first())
    }
}

proof fn lemma_find_nl_bounds(s: Seq<char>)
    ensures
        0 <= find_nl(s) <= s.len(),
        find_nl(s) < s.len() ==> s[find_nl(s)] == '\n',
        forall|k: int| 0 <= k < find_nl(s) ==> s[k] != '\n',
    decreases s.len(),
{
    if s.len() > 0 && s[0] != '\n' {
        lemma_find_nl_bounds(s.drop_first());
        assert forall|k: int| 0 <= k < find_nl(s) implies s[k] != '\n' by {
            if k > 0 {
                assert(s.drop_first()[k - 1] == s[k]);
            }
        }
    }
}

/// The non-empty trimmed lines of a text, in order.
pub open spec fn clean_lines(s: Seq<char>) -> Seq<Seq<char>>
    decreases s.len(),
    via clean_lines_decreases
{
    if s.len() == 0 {
        Seq::empty()
    } else {
        let i = find_nl(s);
        if i >= s.len() {
            if trim_spec(s).len() > 0 {
                seq![trim_spec(s)]
            } else {
                Seq::empty()
            }
        } else {
            let head = trim_spec(s.subrange(0, i));
            let rest = clean_lines(s.subrange(i + 1, s.len() as int));
            if head.len() > 0 {
                seq![head] + rest
            } else {
                rest
            }
        }
    }
}

#[via_fn]
proof fn clean_lines_decreases(s: Seq<char>) {
    if s.len() > 0 {
        lemma_find_nl_bounds(s);
    }
}

/// Whether every element of a JSON array is a string.
pub open spec fn all_strings(items: Seq<JsonView>) -> bool {
    forall|i: int| 0 <= i < items.len() ==> (#[trigger] items[i]) is Str
}

/// The strings among a JSON array's elements, in order.
pub open spec fn strings_of(items: Seq<JsonView>) -> Seq<Seq<char>>
    decreases items.len(),
{
    if items.len() == 0 {
        Seq::empty()
    } else {
        strings_of(items.drop_last()) + (match items.last() {
            JsonView::Str(s) => seq![s],
            _ => Seq::empty(),
        })
    }
}

/// The ghost shapes of a list of owned strings.
pub open spec fn strings_view(ss: Seq<String>) -> Seq<Seq<char>> {
    Seq::new(ss.len(), |i: int| ss[i]@)
}

/// What the two-tier parse of a chat reply yields: the reply's content
/// when it parses strictly as a non-empty JSON array of strings, and its
/// non-empty trimmed lines otherwise. An array with any non-string
/// element fails the strict tier.
pub open spec fn expansion_of(reply: Seq<char>) -> Seq<Seq<char>> {
    match parsed_json(reply) {
        Some(JsonView::Arr(items)) => if all_strings(items) && items.len() > 0 {
            strings_of(items)
        } else {
            clean_lines(reply)
        },
        _ => clean_lines(reply),
    }
}

fn trim_start_exec<'a>(s: &'a str) -> (r: &'a str)
    ensures
        r@ == trim_start_spec(s@),
    decreases s@.len(),
{
    let n = s.unicode_len();
    if n == 0 {
        return s;
    }
    let c = s.get_char(0);
    if c == ' ' || c == '\t' || c == '\r' || c == '\n' {
        let rest = s.substring_char(1, n);
        proof {
            assert(rest@ =~= s@.drop_first());
        }
        trim_start_exec(rest)
    } else {
        s
    }
}

fn trim_end_exec<'a>(s: &'a str) -> (r: &'a str)
    ensures
        r@ == trim_end_spec(s@),
    decreases s@.len(),
{
    let n = s.unicode_len();
    if n == 0 {
        return s;
    }
    let c = s.get_char(n - 1);
    if c == ' ' || c == '\t' || c == '\r' || c == '\n' {
        let rest = s.substring_char(0, n - 1);
        proof {
            assert(rest@ =~= s@.drop_last());
        }
        trim_end_exec(rest)
    } else {
        s
    }
}

/// Removes leading and trailing whitespace.
pub fn trim_exec<'a>(s: &'a str) -> (r: &'a str)
    ensures
        r@ == trim_spec(s@),
{
    trim_end_exec(trim_start_exec(s))
}

fn find_newline(s: &str) -> (r: usize)
    ensures
        r as int == find_nl(s@),
{
    let n = s.unicode_len();
    let mut i: usize = 0;
    while i < n
        invariant
            0 <= i <= n,
            n == s@.len(),
            forall|k: int| 0 <= k < i ==> s@[k] != '\n',
        decreases n - i,
    {
        if s.get_char(i) == '\n' {
            proof {
                lemma_find_nl_at(s@, i as int);
            }
            return i;
        }
        i = i + 1;
    }
    proof {
        lemma_find_nl_at(s@, n as int);
    }
    n
}

proof fn lemma_find_nl_at(s: Seq<char>, i: int)
    requires
        0 <= i <= s.len(),
        forall|k: int| 0 <= k < i ==> s[k] != '\n',
        i < s.len() ==> s[i] == '\n',
    ensures
        find_nl(s) == i,
    decreases i,
{
    if s.len() == 0 {
    } else if i == 0 {
    } else {
        assert(s[0] != '\n');
        assert forall|k: int| 0 <= k < i - 1 implies s.drop_first()[k] != '\n' by {
            assert(s.drop_first()[k] == s[k + 1]);
        }
        if i < s.len() {
            assert(s.drop_first()[i - 1] == s[i]);
        }
        lemma_find_nl_at(s.drop_first(), i - 1);
    }
}

/// The fallback tier: the reply's non-empty trimmed lines.
fn lines_fallback(s: &str) -> (r: Vec<String>)
    ensures
        strings_view(r@) == clean_lines(s@),
    decreases s@.len(),
{
    let n = s.unicode_len();
    if n == 0 {
        let r: Vec<String> = Vec::new();
        proof {
            assert(strings_view(r@) =~= clean_lines(s@));
        }
        return r;
    }
    let i = find_newline(s);
    proof {
        lemma_find_nl_bounds(s@);
    }
    if i == n {
        let t = trim_exec(s);
        let mut out: Vec<String> = Vec::new();
        if t.unicode_len() > 0 {
            out.push(String::from_str(t));
        }
        proof {
            assert(strings_view(out@) =~= clean_lines(s@));
        }
        out
    } else {
        let head = s.substring_char(0, i);
        let tail = s.substring_char(i + 1, n);
        let mut rest = lines_fallback(tail);
        let t = trim_exec(head);
        if t.unicode_len() > 0 {
            let ghost r0 = rest@;
            rest.insert(0, String::from_str(t));
            proof {
                assert(rest@ =~= seq![rest@[0]] + r0);
                assert(strings_view(rest@) =~= seq![trim_spec(s@.subrange(0, i as int))]
                    + strings_view(r0));
            }
        }
        proof {
            assert(strings_view(rest@) =~= clean_lines(s@));
        }
        rest
    }
}

fn collect_strings(items: &Vec<JsonValue>) -> (r: Option<Vec<String>>)
    ensures
        r is Some <==> all_strings(items_view(items@)),
        r matches Some(out) ==> strings_view(out@) == strings_of(items_view(items@)),
{
    proof {
        lemma_items_view(items@);
    }
    let ghost ivs = items_view(items@);
    let mut out: Vec<String> = Vec::new();
    proof {
        assert(strings_view(out@) =~= strings_of(ivs.subrange(0, 0)));
    }
    let n = items.len();
    let mut i: usize = 0;
    while i < n
        invariant
            0 <= i <= n,
            n == items@.len(),
            ivs == items_view(items@),
            ivs.len() == n,
            forall|k: int| 0 <= k < n ==> ivs[k] == (#[trigger] items@[k])@,
            forall|k: int| 0 <= k < i ==> (#[trigger] ivs[k]) is Str,
            strings_view(out@) == strings_of(ivs.subrange(0, i as int)),
        decreases n - i,
    {
        match &items[i] {
            JsonValue::Str(s) => {
                out.push(s.clone());
            },
            _ => {
                proof {
                    assert(!(ivs[i as int] is Str));
                }
                return None;
            },
        }
        i = i + 1;
        proof {
            let pre = ivs.subrange(0, i - 1);
            let now = ivs.subrange(0, i as int);
            assert(now.drop_last() =~= pre);
            assert(now.last() == ivs[i - 1]);
            assert(strings_view(out@) =~= strings_of(now));
        }
    }
    proof {
        assert(ivs.subrange(0, n as int) =~= ivs);
    }
    Some(out)
}

/// The two-tier parse of a chat reply into child-topic suggestions:
/// strict non-empty JSON array-of-strings first; on anything else — no
/// JSON, another document shape, an empty array, a non-string element —
/// the reply's non-empty trimmed lines.
pub fn parse_expansion(reply: &str) -> (r: Vec<String>)
    ensures
        strings_view(r@) == expansion_of(reply@),
{
    match json_parse(reply) {
        Ok(j) => match &j {
            JsonValue::Arr(items) => match collect_strings(items) {
                Some(strs) => if items.len() > 0 {
                    strs
                } else {
                    lines_fallback(reply)
                },
                None => lines_fallback(reply),
            },
            _ => lines_fallback(reply),
        },
        Err(_) => lines_fallback(reply),
    }
}

/// The templated prompt asking for 4-6 short child-topic suggestions for
/// a node, in the shape the UI sends upstream.
pub fn expansion_prompt(node_content: &str) -> (r: String)
    ensures
        r@ == "You are a mind-map assistant. The user selected the node \""@ + node_content@
            + "\".\nPlease suggest 4-6 valuable child topics that expand this theme.\nRequirements:\n1. Keep each child topic short, at most 10 words\n2. Be clear and cover the main aspects\n3. Reply as a JSON array, for example: [\"topic 1\", \"topic 2\", ...]"@,
{
    let mut r = String::from_str("You are a mind-map assistant. The user selected the node \"");
    r.append(node_content);
    r.append(
        "\".\nPlease suggest 4-6 valuable child topics that expand this theme.\nRequirements:\n1. Keep each child topic short, at most 10 words\n2. Be clear and cover the main aspects\n3. Reply as a JSON array, for example: [\"topic 1\", \"topic 2\", ...]",
    );
    r
}

} // verus!
