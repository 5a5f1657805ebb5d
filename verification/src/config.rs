//! The provider registry and its invariants: providers have distinct ids,
//! the registry is never emptied, and the current-provider pointer always
//! names an existing entry.
use vstd::prelude::*;
use vstd::string::*;
use vstd::pervasive::VecAdditionalExecFns;
use crate::errs::CoreError;
use crate::json::str_eq;

verus! {

/// One configured AI backend.
#[derive(Debug, Clone, PartialEq, Eq)]
pub struct AIProvider {
    /// Unique, stable identifier within the registry.
    pub id: String,
    /// Display label.
    pub name: String,
    /// The tag selecting the request/response shape (`openai`, `anthropic`, ...).
    pub kind: String,
    /// Secret, may be empty.
    pub api_key: String,
    /// Endpoint root.
    pub base_url: String,
    /// Model identifier.
    pub model: String,
    /// Sampling temperature as its decimal literal text (for example `0.7`);
    /// `None` means the default applies.
    pub temperature: Option<String>,
    /// Reply length bound; `None` means the default applies.
    pub max_tokens: Option<u64>,
    pub enabled: bool,
}

/// The ghost shape of a provider record.
#[verifier::ext_equal]
pub struct ProviderView {
    pub id: Seq<char>,
    pub name: Seq<char>,
    pub kind: Seq<char>,
    pub api_key: Seq<char>,
    pub base_url: Seq<char>,
    pub model: Seq<char>,
    pub temperature: Option<Seq<char>>,
    pub max_tokens: Option<u64>,
    pub enabled: bool,
}

impl View for AIProvider {
    type V = ProviderView;

    open spec fn view(&self) -> ProviderView {
        ProviderView {
            id: self.id@,
            name: self.name@,
            kind: self.kind@,
            api_key: self.api_key@,
            base_url: self.base_url@,
            model: self.model@,
            temperature: match self.temperature {
                Some(t) => Some(t@),
                None => None,
            },
            max_tokens: self.max_tokens,
            enabled: self.enabled,
        }
    }
}

/// The persisted root document.
#[derive(Debug, Clone, PartialEq, Eq)]
pub struct AIConfig {
    /// Ordered: the first entry is the fallback when the current provider is
    /// deleted.
    pub providers: Vec<AIProvider>,
    /// The id of the provider used when a command names none.
    pub current_provider: String,
}

/// The ghost shape of the root document.
#[verifier::ext_equal]
pub struct ConfigView {
    pub providers: Seq<ProviderView>,
    pub current_provider: Seq<char>,
}

/// The ghost shapes of a sequence of provider records.
pub open spec fn providers_view(ps: Seq<AIProvider>) -> Seq<ProviderView> {
    Seq::new(ps.len(), |i: int| ps[i]@)
}

impl View for AIConfig {
    type V = ConfigView;

    open spec fn view(&self) -> ConfigView {
        ConfigView {
            providers: providers_view(self.providers@),
            current_provider: self.current_provider@,
        }
    }
}

/// All provider ids in the registry are distinct.
pub open spec fn ids_unique(ps: Seq<ProviderView>) -> bool {
    forall|i: int, j: int|
        0 <= i < j < ps.len() ==> (#[trigger] ps[i]).id != (#[trigger] ps[j]).id
}

/// Some entry carries the given id.
pub open spec fn has_id(ps: Seq<ProviderView>, id: Seq<char>) -> bool {
    exists|i: int| 0 <= i < ps.len() && (#[trigger] ps[i]).id == id
}

/// The document invariant: at least one provider, distinct ids, and a
/// current-provider pointer that names an existing entry.
pub open spec fn config_wf(c: ConfigView) -> bool {
    &&& c.providers.len() >= 1
    &&& ids_unique(c.providers)
    &&& has_id(c.providers, c.current_provider)
}

/// The built-in provider record used the first time no document exists.
pub open spec fn spec_default_provider() -> ProviderView {
    ProviderView {
        id: "openai-default"@,
        name: "OpenAI"@,
        kind: "openai"@,
        api_key: Seq::empty(),
        base_url: "https://api.openai.com/v1"@,
        model: "gpt-4o-mini"@,
        temperature: Some("0.7"@),
        max_tokens: Some(2000),
        enabled: true,
    }
}

/// The default document: exactly the built-in provider, selected.
pub open spec fn spec_default_config() -> ConfigView {
    ConfigView {
        providers: seq![spec_default_provider()],
        current_provider: "openai-default"@,
    }
}

/// Builds the default document synthesized on first run.
pub fn default_config() -> (c: AIConfig)
    ensures
        c@ == spec_default_config(),
        config_wf(c@),
{
    let provider = AIProvider {
        id: String::from_str("openai-default"),
        name: String::from_str("OpenAI"),
        kind: String::from_str("openai"),
        api_key: String::new(),
        base_url: String::from_str("https://api.openai.com/v1"),
        model: String::from_str("gpt-4o-mini"),
        temperature: Some(String::from_str("0.7")),
        max_tokens: Some(2000),
        enabled: true,
    };
    let mut providers: Vec<AIProvider> = Vec::new();
    providers.push(provider);
    let c = AIConfig { providers, current_provider: String::from_str("openai-default") };
    proof {
        assert(c@.providers =~= seq![spec_default_provider()]);
        assert(c@.providers[0].id == c@.current_provider);
    }
    c
}

impl Default for AIConfig {
    /// The default document of first run.
    fn default() -> (c: Self)
        ensures
            c@ == spec_default_config(),
            config_wf(c@),
    {
        default_config()
    }
}

/// The index of the first entry with the given id.
fn find_index(ps: &Vec<AIProvider>, id: &str) -> (r: Option<usize>)
    ensures
        r matches Some(i) ==> 0 <= i < ps@.len() && (ps@[i as int])@.id == id@ && (forall|k: int|
            0 <= k < i ==> (#[trigger] ps@[k])@.id != id@),
        r is None ==> forall|k: int| 0 <= k < ps@.len() ==> (#[trigger] ps@[k])@.id != id@,
{
    let mut i: usize = 0;
    let n = ps.len();
    while i < n
        invariant
            0 <= i <= n,
            n == ps@.len(),
            forall|k: int| 0 <= k < i ==> (#[trigger] ps@[k])@.id != id@,
        decreases n - i,
    {
        if str_eq(ps[i].id.as_str(), id) {
            return Some(i);
        }
        i = i + 1;
    }
    None
}

/// Finds the first provider with the given id.
pub fn find_provider<'a>(c: &'a AIConfig, id: &str) -> (r: Option<&'a AIProvider>)
    ensures
        r is Some <==> has_id(c@.providers, id@),
        r matches Some(p) ==> (exists|i: int|
            {
                &&& 0 <= i < c@.providers.len()
                &&& (#[trigger] c@.providers[i]).id == id@
                &&& p@ == c@.providers[i]
                &&& forall|k: int| 0 <= k < i ==> (#[trigger] c@.providers[k]).id != id@
            }),
{
    match find_index(&c.providers, id) {
        Some(i) => {
            proof {
                assert((c@.providers[i as int]).id == id@);
                assert forall|k: int| 0 <= k < i implies (#[trigger] c@.providers[k]).id
                    != id@ by {
                    assert((c.providers@[k])@.id != id@);
                }
            }
            Some(&c.providers[i])
        },
        None => {
            proof {
                assert forall|k: int|
                    0 <= k < c@.providers.len() implies (#[trigger] c@.providers[k]).id != id@ by {
                    assert((c.providers@[k])@.id != id@);
                }
            }
            None
        },
    }
}

/// Replaces the first entry whose id matches (keeping its position), or
/// appends the record if no entry matches; the selection is unchanged.
/// Distinct ids, and the whole document invariant, are preserved.
pub fn upsert_provider(c: &mut AIConfig, p: AIProvider)
    ensures
        final(c)@.current_provider == old(c)@.current_provider,
        !has_id(old(c)@.providers, p@.id) ==> final(c)@.providers == old(c)@.providers.push(p@),
        has_id(old(c)@.providers, p@.id) ==> (exists|i: int|
            {
                &&& 0 <= i < old(c)@.providers.len()
                &&& (#[trigger] old(c)@.providers[i]).id == p@.id
                &&& forall|k: int| 0 <= k < i ==> (#[trigger] old(c)@.providers[k]).id != p@.id
                &&& final(c)@.providers == old(c)@.providers.update(i, p@)
            }),
        ids_unique(old(c)@.providers) ==> ids_unique(final(c)@.providers),
        config_wf(old(c)@) ==> config_wf(final(c)@),
{
    let ghost ops = old(c)@.providers;
    match find_index(&c.providers, p.id.as_str()) {
        Some(i) => {
            let ghost at = i as int;
            proof {
                assert((c@.providers[at]).id == p@.id);
                assert forall|k: int| 0 <= k < at implies (#[trigger] ops[k]).id != p@.id by {
                    assert((c.providers@[k])@.id != p@.id);
                }
            }
            c.providers.set(i, p);
            proof {
                assert(c@.providers =~= ops.update(at, p@));
                lemma_upsert_preserves(ops, c@.providers[at], at, old(c)@, c@);
            }
        },
        None => {
            proof {
                assert forall|k: int| 0 <= k < ops.len() implies (#[trigger] ops[k]).id
                    != p@.id by {
                    assert((c.providers@[k])@.id != p@.id);
                }
            }
            c.providers.push(p);
            proof {
                assert(c@.providers =~= ops.push(c@.providers[ops.len() as int]));
                let q = c@.providers[ops.len() as int];
                let nps = c@.providers;
                assert(!has_id(ops, q.id));
                if ids_unique(ops) {
                    assert forall|a: int, b: int|
                        0 <= a < b < nps.len() implies (#[trigger] nps[a]).id != (
                    #[trigger] nps[b]).id by {
                        if b < ops.len() {
                            assert(ops[a].id != ops[b].id);
                        } else {
                            assert(nps[b] == q);
                            assert(ops[a].id != q.id);
                        }
                    }
                }
                if config_wf(old(c)@) {
                    let w = choose|w: int|
                        0 <= w < ops.len() && (#[trigger] ops[w]).id == old(c)@.current_provider;
                    assert(nps[w].id == c@.current_provider);
                }
            }
        },
    }
}

proof fn lemma_upsert_preserves(
    ops: Seq<ProviderView>,
    p: ProviderView,
    at: int,
    oldc: ConfigView,
    newc: ConfigView,
)
    requires
        0 <= at < ops.len(),
        ops[at].id == p.id,
        oldc.providers == ops,
        newc.providers == ops.update(at, p),
        newc.current_provider == oldc.current_provider,
    ensures
        ids_unique(ops) ==> ids_unique(newc.providers),
        config_wf(oldc) ==> config_wf(newc),
        has_id(ops, p.id),
{
    assert(has_id(ops, p.id)) by {
        assert((ops[at]).id == p.id);
    }
    if ids_unique(ops) {
        assert forall|a: int, b: int|
            0 <= a < b < newc.providers.len() implies (#[trigger] newc.providers[a]).id != (
        #[trigger] newc.providers[b]).id by {
            assert(ops[a].id != ops[b].id);
            if a == at {
                assert(newc.providers[a].id == ops[at].id);
            }
            if b == at {
                assert(newc.providers[b].id == ops[at].id);
            }
        }
    }
    if config_wf(oldc) {
        let w = choose|w: int| 0 <= w < ops.len() && (#[trigger] ops[w]).id == oldc.current_provider;
        if w == at {
            assert(newc.providers[at].id == oldc.current_provider);
        } else {
            assert(newc.providers[w].id == oldc.current_provider);
        }
    }
}

/// Rejects deleting the last remaining provider; otherwise removes the
/// first entry with the given id (if any) and, when the deleted entry was
/// selected, reselects the first remaining provider.
pub fn delete_provider(c: &mut AIConfig, id: &str) -> (r: Result<(), CoreError>)
    ensures
        old(c)@.providers.len() <= 1 <==> r is Err,
        r matches Err(e) ==> *final(c) == *old(c) && (e matches CoreError::Validation(m) && m@
            == "at least one provider required"@),
        r is Ok ==> final(c)@.providers.len() >= 1,
        r is Ok ==> (if has_id(old(c)@.providers, id@) {
            exists|i: int|
                {
                    &&& 0 <= i < old(c)@.providers.len()
                    &&& (#[trigger] old(c)@.providers[i]).id == id@
                    &&& forall|k: int| 0 <= k < i ==> (#[trigger] old(c)@.providers[k]).id != id@
                    &&& final(c)@.providers == old(c)@.providers.remove(i)
                }
        } else {
            final(c)@.providers == old(c)@.providers
        }),
        r is Ok ==> (if old(c)@.current_provider == id@ {
            final(c)@.current_provider == final(c)@.providers[0].id
        } else {
            final(c)@.current_provider == old(c)@.current_provider
        }),
        config_wf(old(c)@) && r is Ok ==> config_wf(final(c)@),
{
    let n = c.providers.len();
    if n <= 1 {
        return Err(CoreError::Validation(String::from_str("at least one provider required")));
    }
    let ghost ops = c@.providers;
    let ghost mut at: int = 0;
    let ghost mut removed = false;
    match find_index(&c.providers, id) {
        Some(i) => {
            proof {
                at = i as int;
                removed = true;
                assert((c@.providers[at]).id == id@);
                assert forall|k: int| 0 <= k < at implies (#[trigger] ops[k]).id != id@ by {
                    assert((c.providers@[k])@.id != id@);
                }
            }
            c.providers.remove(i);
            proof {
                assert(c@.providers =~= ops.remove(at));
            }
        },
        None => {
            proof {
                assert forall|k: int| 0 <= k < ops.len() implies (#[trigger] ops[k]).id
                    != id@ by {
                    assert((c.providers@[k])@.id != id@);
                }
                assert(!has_id(ops, id@));
                assert(c@.providers =~= ops);
            }
        },
    }
    proof {
        lemma_remove_keeps_unique(ops, at, removed);
    }
    if str_eq(c.current_provider.as_str(), id) {
        let first = c.providers[0].id.clone();
        c.current_provider = first;
        proof {
            assert(c@.current_provider == c@.providers[0].id);
        }
    }
    proof {
        if config_wf(old(c)@) {
            lemma_delete_wf(ops, old(c)@, c@, id@, at, removed);
        }
    }
    Ok(())
}

proof fn lemma_remove_keeps_unique(ops: Seq<ProviderView>, at: int, removed: bool)
    requires
        removed ==> 0 <= at < ops.len(),
    ensures
        removed && ids_unique(ops) ==> ids_unique(ops.remove(at)),
{
    if removed && ids_unique(ops) {
        let rs = ops.remove(at);
        assert forall|a: int, b: int| 0 <= a < b < rs.len() implies (#[trigger] rs[a]).id != (
        #[trigger] rs[b]).id by {
            let a0 = if a < at {
                a
            } else {
                a + 1
            };
            let b0 = if b < at {
                b
            } else {
                b + 1
            };
            assert(rs[a] == ops[a0]);
            assert(rs[b] == ops[b0]);
            assert(ops[a0].id != ops[b0].id);
        }
    }
}

proof fn lemma_delete_wf(
    ops: Seq<ProviderView>,
    oldc: ConfigView,
    newc: ConfigView,
    id: Seq<char>,
    at: int,
    removed: bool,
)
    requires
        config_wf(oldc),
        oldc.providers == ops,
        ops.len() >= 2,
        removed ==> 0 <= at < ops.len() && ops[at].id == id,
        removed ==> newc.providers == ops.remove(at),
        !removed ==> newc.providers == ops && !has_id(ops, id),
        oldc.current_provider == id ==> newc.providers.len() >= 1 && newc.current_provider
            == newc.providers[0].id,
        oldc.current_provider != id ==> newc.current_provider == oldc.current_provider,
    ensures
        config_wf(newc),
{
    lemma_remove_keeps_unique(ops, at, removed);
    if oldc.current_provider == id {
        assert(has_id(newc.providers, newc.current_provider)) by {
            assert((newc.providers[0]).id == newc.current_provider);
        }
    } else {
        let w = choose|w: int| 0 <= w < ops.len() && (#[trigger] ops[w]).id == oldc.current_provider;
        if removed {
            assert(ops[at].id == id);
            let w2 = if w < at {
                w
            } else {
                w - 1
            };
            assert(w != at);
            assert(newc.providers[w2] == ops[w]);
            assert(has_id(newc.providers, newc.current_provider)) by {
                assert((newc.providers[w2]).id == newc.current_provider);
            }
        } else {
            assert((newc.providers[w]).id == newc.current_provider);
        }
    }
}

/// Selects the provider with the given id; fails with `NotFound` (leaving
/// the document unchanged) when no entry carries it.
pub fn set_current_provider(c: &mut AIConfig, id: &str) -> (r: Result<(), CoreError>)
    ensures
        r is Ok <==> has_id(old(c)@.providers, id@),
        r is Ok ==> final(c)@.providers == old(c)@.providers && final(c)@.current_provider == id@,
        r matches Err(e) ==> *final(c) == *old(c) && (e matches CoreError::NotFound(m) && m@
            == "Provider not found"@),
        config_wf(old(c)@) && r is Ok ==> config_wf(final(c)@),
{
    match find_index(&c.providers, id) {
        Some(i) => {
            proof {
                assert((c@.providers[i as int]).id == id@);
            }
            c.current_provider = string_of(id);
            proof {
                assert(c@.providers =~= old(c)@.providers);
                if config_wf(old(c)@) {
                    assert((c@.providers[i as int]).id == c@.current_provider);
                }
            }
            Ok(())
        },
        None => {
            proof {
                assert forall|k: int|
                    0 <= k < c@.providers.len() implies (#[trigger] c@.providers[k]).id != id@ by {
                    assert((c.providers@[k])@.id != id@);
                }
            }
            Err(CoreError::NotFound(String::from_str("Provider not found")))
        },
    }
}

/// An owned copy of a borrowed string slice.
fn string_of(s: &str) -> (r: String)
    ensures
        r@ == s@,
{
    String::from_str(s)
}

} // verus!
