//! Reading the user's Codex configuration (`~/.codex/config.toml`): where it
//! lives, which API-key provider is active, and which `env_key` names the
//! configured providers declare.
//!
//! The TOML text is parsed by the `toml` crate; the document is then held
//! as a [`TomlValue`] and everything read from it is verified.

use vstd::prelude::*;

use crate::paths::{is_plain_name, join_path, path_joined, Platform};
use crate::text::{chars_eq, chars_of, string_of, trim, trim_chars};

verus! {

/// A TOML value as the library holds it. Floats and date-times keep only
/// their kind: nothing here reads their value.
pub enum TomlValue {
    Str(String),
    Integer(i64),
    Real,
    Boolean(bool),
    Datetime,
    Array(Vec<TomlValue>),
    /// The entries of a table, in the order the `toml` crate yields them.
    Table(Vec<(String, TomlValue)>),
}

/// The document that `toml::from_str::<toml::Value>` makes of `text`, or
/// `None` when the text is not valid TOML.
pub uninterp spec fn toml_document(text: Seq<char>) -> Option<TomlValue>;

/// Makes `toml::Value` known to the verifier as an opaque type; it only
/// passes from the parser to the conversion below.
#[verifier::external_type_specification]
#[verifier::external_body]
pub struct ExTomlValue(toml::Value);

/// Moves a `toml::Value` into a [`TomlValue`], variant for variant (tables
/// entry for entry, in the crate's iteration order); a float or date-time
/// keeps only its kind. It is the conversion step of `parse_toml` and
/// claims nothing by itself.
#[verifier::external_body]
fn toml_value_model(v: toml::Value) -> TomlValue {
    match v {
        toml::Value::String(s) => TomlValue::Str(s),
        toml::Value::Integer(i) => TomlValue::Integer(i),
        toml::Value::Float(_) => TomlValue::Real,
        toml::Value::Boolean(b) => TomlValue::Boolean(b),
        toml::Value::Datetime(_) => TomlValue::Datetime,
        toml::Value::Array(a) => TomlValue::Array(a.into_iter().map(toml_value_model).collect()),
        toml::Value::Table(t) => TomlValue::Table(
            t.into_iter().map(|(k, x)| (k, toml_value_model(x))).collect(),
        ),
    }
}

/// Parses `text` with `toml::from_str::<toml::Value>`. Claims that the result
/// is the document the crate makes of the text (`None` on a parse error),
/// named `toml_document`; nothing is stated of what that document is.
#[verifier::external_body]
fn parse_toml(text: &str) -> (r: Option<TomlValue>)
    ensures
        r == toml_document(text@),
{
    match toml::from_str::<toml::Value>(text) {
        Ok(v) => Some(toml_value_model(v)),
        Err(_) => None,
    }
}

/// The value of the first entry named `key`.
pub open spec fn entry_get(entries: Seq<(String, TomlValue)>, key: Seq<char>) -> Option<TomlValue>
    decreases entries.len(),
{
    if entries.len() == 0 {
        None
    } else if entries[0].0@ == key {
        Some(entries[0].1)
    } else {
        entry_get(entries.drop_first(), key)
    }
}

/// `toml::Value::get` with a string key: the value under `key` when `v` is a
/// table, `None` otherwise.
pub open spec fn value_get(v: TomlValue, key: Seq<char>) -> Option<TomlValue> {
    match v {
        TomlValue::Table(entries) => entry_get(entries@, key),
        _ => None,
    }
}

/// A string value, trimmed, when it is not blank.
pub open spec fn nonblank_str(v: Option<TomlValue>) -> Option<Seq<char>> {
    match v {
        Some(TomlValue::Str(s)) => if trim(s@).len() > 0 {
            Some(trim(s@))
        } else {
            None
        },
        _ => None,
    }
}

/// The active provider of a configuration document: the name under
/// `model_provider` and the `env_key` of `[model_providers.<name>]`, both
/// trimmed and non-blank.
pub open spec fn active_provider_in(doc: TomlValue) -> Option<(Seq<char>, Seq<char>)> {
    match nonblank_str(value_get(doc, "model_provider"@)) {
        Some(name) => match value_get(doc, "model_providers"@) {
            Some(providers) => match value_get(providers, name) {
                Some(section) => match nonblank_str(value_get(section, "env_key"@)) {
                    Some(key) => Some((name, key)),
                    None => None,
                },
                None => None,
            },
            None => None,
        },
        None => None,
    }
}

/// The `env_key`s of these provider sections, trimmed, blank ones left out,
/// each kept at its first occurrence.
pub open spec fn env_keys_of(sections: Seq<(String, TomlValue)>) -> Seq<Seq<char>>
    decreases sections.len(),
{
    if sections.len() == 0 {
        Seq::<Seq<char>>::empty()
    } else {
        let earlier = env_keys_of(sections.drop_last());
        match nonblank_str(value_get(sections.last().1, "env_key"@)) {
            Some(k) => if earlier.contains(k) {
                earlier
            } else {
                earlier.push(k)
            },
            None => earlier,
        }
    }
}

/// Every `env_key` declared under `[model_providers.*]`, in table order and
/// without repeats; empty when `model_providers` is missing or no table.
pub open spec fn declared_keys_in(doc: TomlValue) -> Seq<Seq<char>> {
    match value_get(doc, "model_providers"@) {
        Some(TomlValue::Table(sections)) => env_keys_of(sections@),
        _ => Seq::<Seq<char>>::empty(),
    }
}

/// Law: a provider is active only when the document selects one. Without a
/// non-blank string `model_provider` nothing is active; a provider found is
/// named by the trimmed `model_provider` value and carries the trimmed
/// `env_key` of the `[model_providers.<name>]` section; and when that
/// section has a non-blank string `env_key`, the provider is found.
pub proof fn law_active_provider_is_selected(doc: TomlValue)
    ensures
        nonblank_str(value_get(doc, "model_provider"@)) is None ==> active_provider_in(doc) is None,
        active_provider_in(doc) matches Some((name, key)) ==> {
            &&& nonblank_str(value_get(doc, "model_provider"@)) == Some(name)
            &&& value_get(doc, "model_providers"@) matches Some(providers)
            &&& value_get(providers, name) matches Some(section)
            &&& nonblank_str(value_get(section, "env_key"@)) == Some(key)
        },
        ({
            let name = nonblank_str(value_get(doc, "model_provider"@));
            let providers = value_get(doc, "model_providers"@);
            &&& name is Some
            &&& providers is Some
            &&& value_get(providers.unwrap(), name.unwrap()) is Some
            &&& nonblank_str(value_get(value_get(providers.unwrap(), name.unwrap()).unwrap(), "env_key"@)) is Some
        }) ==> active_provider_in(doc) is Some,
{
    if let Some(name) = nonblank_str(value_get(doc, "model_provider"@)) {
        if let Some(providers) = value_get(doc, "model_providers"@) {
            if let Some(section) = value_get(providers, name) {
                if let Some(key) = nonblank_str(value_get(section, "env_key"@)) {
                    assert(active_provider_in(doc) == Some((name, key)));
                }
            }
        }
    }
}

/// Law: `nonblank_str` takes a string value, trims it, and keeps it only
/// when something is left; any other value gives nothing.
pub proof fn law_nonblank_str(v: Option<TomlValue>)
    ensures
        nonblank_str(v) matches Some(t) ==> (v matches Some(TomlValue::Str(s)) && t == trim(s@)
            && t.len() > 0),
        v matches Some(TomlValue::Str(s)) && trim(s@).len() > 0 ==> nonblank_str(v) is Some,
{
}

/// Each step of `env_keys_of` keeps what the earlier sections gave.
proof fn lemma_env_keys_grow(sections: Seq<(String, TomlValue)>, i: int)
    requires
        0 <= i <= sections.len(),
    ensures
        forall|k: Seq<char>|
            env_keys_of(sections.subrange(0, i)).contains(k) ==> #[trigger] env_keys_of(
                sections,
            ).contains(k),
    decreases sections.len() - i,
{
    if i < sections.len() {
        let last = sections.drop_last();
        assert(last.subrange(0, i) =~= sections.subrange(0, i));
        lemma_env_keys_grow(last, i);
        assert forall|k: Seq<char>| env_keys_of(last).contains(k) implies #[trigger] env_keys_of(
            sections,
        ).contains(k) by {
            let earlier = env_keys_of(last);
            let m = choose|m: int| 0 <= m < earlier.len() && earlier[m] == k;
            match nonblank_str(value_get(sections.last().1, "env_key"@)) {
                Some(x) => if !earlier.contains(x) {
                    assert(earlier.push(x)[m] == k);
                },
                None => {},
            }
        }
    } else {
        assert(sections.subrange(0, i) =~= sections);
    }
}

/// The key of any section shows up in `env_keys_of`.
proof fn lemma_env_keys_has_section(sections: Seq<(String, TomlValue)>, i: int, k: Seq<char>)
    requires
        0 <= i < sections.len(),
        nonblank_str(value_get(sections[i].1, "env_key"@)) == Some(k),
    ensures
        env_keys_of(sections).contains(k),
{
    let prefix = sections.subrange(0, i + 1);
    assert(prefix.drop_last() =~= sections.subrange(0, i));
    assert(prefix.last() == sections[i]);
    let earlier = env_keys_of(prefix.drop_last());
    if !earlier.contains(k) {
        assert(earlier.push(k)[earlier.len() as int] == k);
    }
    assert(env_keys_of(prefix).contains(k));
    lemma_env_keys_grow(sections, i + 1);
}

proof fn lemma_entry_get_found(entries: Seq<(String, TomlValue)>, key: Seq<char>)
    ensures
        entry_get(entries, key) matches Some(v) ==> exists|i: int|
            0 <= i < entries.len() && #[trigger] entries[i].1 == v,
    decreases entries.len(),
{
    if entries.len() > 0 && entries[0].0@ != key {
        lemma_entry_get_found(entries.drop_first(), key);
        if let Some(v) = entry_get(entries, key) {
            let i = choose|i: int|
                0 <= i < entries.drop_first().len() && #[trigger] entries.drop_first()[i].1 == v;
            assert(entries[i + 1].1 == v);
        }
    }
}

/// Law: the declared keys are exactly the non-blank `env_key`s of the
/// provider sections: each section's key is listed, and each listed key is
/// some section's key.
pub proof fn law_declared_keys_exact(sections: Seq<(String, TomlValue)>)
    ensures
        forall|i: int|
            0 <= i < sections.len() && nonblank_str(value_get(#[trigger] sections[i].1, "env_key"@))
                is Some ==> env_keys_of(sections).contains(
                nonblank_str(value_get(sections[i].1, "env_key"@)).unwrap(),
            ),
        forall|k: Seq<char>|
            #[trigger] env_keys_of(sections).contains(k) ==> exists|i: int|
                0 <= i < sections.len() && nonblank_str(value_get(#[trigger] sections[i].1, "env_key"@))
                    == Some(k),
    decreases sections.len(),
{
    assert forall|i: int|
        0 <= i < sections.len() && nonblank_str(value_get(#[trigger] sections[i].1, "env_key"@))
            is Some implies env_keys_of(sections).contains(
        nonblank_str(value_get(sections[i].1, "env_key"@)).unwrap(),
    ) by {
        lemma_env_keys_has_section(sections, i, nonblank_str(value_get(sections[i].1, "env_key"@)).unwrap());
    }
    if sections.len() > 0 {
        let pre = sections.drop_last();
        law_declared_keys_exact(pre);
        assert forall|k: Seq<char>| #[trigger] env_keys_of(sections).contains(k) implies exists|i: int|
            0 <= i < sections.len() && nonblank_str(value_get(#[trigger] sections[i].1, "env_key"@))
                == Some(k) by {
            let earlier = env_keys_of(pre);
            if earlier.contains(k) {
                let i = choose|i: int|
                    0 <= i < pre.len() && nonblank_str(value_get(#[trigger] pre[i].1, "env_key"@))
                        == Some(k);
                assert(sections[i] == pre[i]);
            } else {
                let m = choose|m: int| 0 <= m < env_keys_of(sections).len() && env_keys_of(sections)[m] == k;
                let last = sections.len() - 1;
                assert(sections[last] == sections.last());
            }
        }
    }
}

/// Law: the keys that `declared_env_keys` lists are all different.
pub proof fn law_declared_keys_distinct(sections: Seq<(String, TomlValue)>)
    ensures
        forall|i: int, j: int|
            0 <= i < j < env_keys_of(sections).len() ==> #[trigger] env_keys_of(sections)[i]
                != #[trigger] env_keys_of(sections)[j],
    decreases sections.len(),
{
    if sections.len() > 0 {
        law_declared_keys_distinct(sections.drop_last());
        let earlier = env_keys_of(sections.drop_last());
        match nonblank_str(value_get(sections.last().1, "env_key"@)) {
            Some(k) => if !earlier.contains(k) {
                let r = earlier.push(k);
                assert forall|i: int, j: int| 0 <= i < j < r.len() implies #[trigger] r[i]
                    != #[trigger] r[j] by {
                    if j == earlier.len() {
                        assert(r[i] == earlier[i]);
                    } else {
                        assert(r[i] == earlier[i] && r[j] == earlier[j]);
                    }
                }
            },
            None => {},
        }
    }
}

/// Law: the key variable of the active provider is among the declared
/// ones, so the host always passes it through.
pub proof fn law_active_key_is_declared(doc: TomlValue)
    ensures
        active_provider_in(doc) matches Some((name, key)) ==> declared_keys_in(doc).contains(key),
{
    if let Some((name, key)) = active_provider_in(doc) {
        let providers = value_get(doc, "model_providers"@).unwrap();
        match providers {
            TomlValue::Table(sections) => {
                let section = entry_get(sections@, name).unwrap();
                lemma_entry_get_found(sections@, name);
                let i = choose|i: int| 0 <= i < sections@.len() && #[trigger] sections@[i].1 == section;
                lemma_env_keys_has_section(sections@, i, key);
            },
            _ => {},
        }
    }
}

/// An API-key provider: its name and the environment variable that holds
/// its key.
#[derive(Debug)]
pub struct ApiKeyProvider {
    pub name: String,
    pub env_key: String,
}

impl PartialEq for ApiKeyProvider {
    fn eq(&self, other: &Self) -> (r: bool) {
        self.name == other.name && self.env_key == other.env_key
    }
}

impl vstd::std_specs::cmp::PartialEqSpecImpl for ApiKeyProvider {
    open spec fn obeys_eq_spec() -> bool {
        true
    }

    open spec fn eq_spec(&self, other: &Self) -> bool {
        self.name@ == other.name@ && self.env_key@ == other.env_key@
    }
}

impl Clone for ApiKeyProvider {
    fn clone(&self) -> (r: Self)
        ensures
            r.name@ == self.name@,
            r.env_key@ == self.env_key@,
    {
        ApiKeyProvider { name: self.name.clone(), env_key: self.env_key.clone() }
    }
}

/// What a found provider stands for: its name and key variable.
pub open spec fn provider_view(p: Option<ApiKeyProvider>) -> Option<(Seq<char>, Seq<char>)> {
    match p {
        Some(p) => Some((p.name@, p.env_key@)),
        None => None,
    }
}

/// The value of the first entry named `key`.
fn entry_get_exec<'a>(entries: &'a Vec<(String, TomlValue)>, key: &Vec<char>) -> (r: Option<
    &'a TomlValue,
>)
    ensures
        match r {
            Some(v) => entry_get(entries@, key@) == Some(*v),
            None => entry_get(entries@, key@) is None,
        },
{
    let mut i: usize = 0;
    assert(entries@.subrange(0, entries@.len() as int) =~= entries@);
    while i < entries.len()
        invariant
            i <= entries@.len(),
            entry_get(entries@, key@) == entry_get(entries@.subrange(i as int, entries@.len() as int), key@),
        decreases entries@.len() - i,
    {
        let name = chars_of(entries[i].0.as_str());
        let ghost rest = entries@.subrange(i as int, entries@.len() as int);
        assert(rest.drop_first() =~= entries@.subrange(i + 1, entries@.len() as int));
        if chars_eq(&name, key) {
            return Some(&entries[i].1);
        }
        i = i + 1;
    }
    None
}

/// `toml::Value::get` with a string key.
fn value_get_exec<'a>(v: &'a TomlValue, key: &str) -> (r: Option<&'a TomlValue>)
    ensures
        match r {
            Some(x) => value_get(*v, key@) == Some(*x),
            None => value_get(*v, key@) is None,
        },
{
    match v {
        TomlValue::Table(entries) => {
            let k = chars_of(key);
            entry_get_exec(entries, &k)
        },
        _ => None,
    }
}

/// A string value, trimmed, when it is not blank.
fn nonblank_str_exec(v: Option<&TomlValue>) -> (r: Option<Vec<char>>)
    ensures
        match r {
            Some(s) => nonblank_str(
                match v {
                    Some(x) => Some(*x),
                    None => None::<TomlValue>,
                },
            ) == Some(s@),
            None => nonblank_str(
                match v {
                    Some(x) => Some(*x),
                    None => None::<TomlValue>,
                },
            ) is None,
        },
{
    match v {
        Some(TomlValue::Str(s)) => {
            let cs = chars_of(s.as_str());
            let t = trim_chars(&cs);
            if t.len() > 0 {
                Some(t)
            } else {
                None
            }
        },
        _ => None,
    }
}

/// The active API-key provider of a parsed configuration document.
pub fn active_api_key_provider_in(doc: &TomlValue) -> (r: Option<ApiKeyProvider>)
    ensures
        provider_view(r) == active_provider_in(*doc),
{
    let name = match nonblank_str_exec(value_get_exec(doc, "model_provider")) {
        Some(n) => n,
        None => return None,
    };
    let providers = match value_get_exec(doc, "model_providers") {
        Some(p) => p,
        None => return None,
    };
    let name_string = string_of(&name);
    let section = match value_get_exec(providers, name_string.as_str()) {
        Some(s) => s,
        None => return None,
    };
    let key = match nonblank_str_exec(value_get_exec(section, "env_key")) {
        Some(k) => k,
        None => return None,
    };
    Some(ApiKeyProvider { name: name_string, env_key: string_of(&key) })
}

/// Whether `keys` already holds `k`.
fn holds_key(keys: &Vec<String>, k: &Vec<char>) -> (r: bool)
    ensures
        r == keys@.map_values(|s: String| s@).contains(k@),
{
    let ghost kv = keys@.map_values(|s: String| s@);
    let mut i: usize = 0;
    while i < keys.len()
        invariant
            i <= keys@.len(),
            kv == keys@.map_values(|s: String| s@),
            forall|m: int| 0 <= m < i ==> kv[m] != k@,
        decreases keys@.len() - i,
    {
        let c = chars_of(keys[i].as_str());
        if chars_eq(&c, k) {
            assert(kv[i as int] == k@);
            return true;
        }
        i = i + 1;
    }
    assert(!kv.contains(k@)) by {
        if kv.contains(k@) {
            let m = choose|m: int| 0 <= m < kv.len() && kv[m] == k@;
            assert(kv[m] != k@);
        }
    }
    false
}

/// Every `env_key` declared in a parsed configuration document.
pub fn declared_env_keys_in(doc: &TomlValue) -> (r: Vec<String>)
    ensures
        r@.map_values(|s: String| s@) == declared_keys_in(*doc),
{
    let sections = match value_get_exec(doc, "model_providers") {
        Some(TomlValue::Table(sections)) => sections,
        _ => {
            let empty: Vec<String> = Vec::new();
            assert(empty@.map_values(|s: String| s@) =~= declared_keys_in(*doc));
            return empty;
        },
    };
    let mut keys: Vec<String> = Vec::new();
    let mut i: usize = 0;
    assert(sections@.subrange(0, 0) =~= Seq::<(String, TomlValue)>::empty());
    assert(keys@.map_values(|s: String| s@) =~= env_keys_of(sections@.subrange(0, 0)));
    while i < sections.len()
        invariant
            i <= sections@.len(),
            keys@.map_values(|s: String| s@) == env_keys_of(sections@.subrange(0, i as int)),
        decreases sections@.len() - i,
    {
        let ghost before = keys@.map_values(|s: String| s@);
        let ghost sub = sections@.subrange(0, i + 1);
        assert(sub.drop_last() =~= sections@.subrange(0, i as int));
        assert(sub.last() == sections@[i as int]);
        match nonblank_str_exec(value_get_exec(&sections[i].1, "env_key")) {
            Some(k) => {
                if !holds_key(&keys, &k) {
                    keys.push(string_of(&k));
                    assert(keys@.map_values(|s: String| s@) =~= before.push(k@));
                }
            },
            None => {},
        }
        i = i + 1;
    }
    assert(sections@.subrange(0, sections@.len() as int) =~= sections@);
    keys
}

/// The provider currently selected by `model_provider`, if it declares an
/// `env_key`. `None` when no provider is active, the active provider has no
/// key variable, or the text is not valid TOML.
pub fn active_api_key_provider(config: &str) -> (r: Option<ApiKeyProvider>)
    ensures
        provider_view(r) == match toml_document(config@) {
            Some(doc) => active_provider_in(doc),
            None => None,
        },
{
    match parse_toml(config) {
        Some(doc) => active_api_key_provider_in(&doc),
        None => None,
    }
}

/// Every `env_key` declared under `[model_providers.*]`, whichever provider
/// is active. Empty when the text is not valid TOML or declares none.
pub fn declared_env_keys(config: &str) -> (r: Vec<String>)
    ensures
        r@.map_values(|s: String| s@) == match toml_document(config@) {
            Some(doc) => declared_keys_in(doc),
            None => Seq::<Seq<char>>::empty(),
        },
{
    match parse_toml(config) {
        Some(doc) => declared_env_keys_in(&doc),
        None => {
            let empty: Vec<String> = Vec::new();
            assert(empty@.map_values(|s: String| s@) =~= Seq::<Seq<char>>::empty());
            empty
        },
    }
}

/// Where the Codex configuration lives: `$CODEX_HOME/config.toml` when
/// `CODEX_HOME` is set, else `$HOME/.codex/config.toml` (with `/` for an
/// unset `HOME`).
pub open spec fn codex_config_path(
    codex_home: Option<Seq<char>>,
    home: Option<Seq<char>>,
    platform: Platform,
) -> Seq<char> {
    let dir = match codex_home {
        Some(c) => c,
        None => path_joined(
            match home {
                Some(h) => h,
                None => "/"@,
            },
            ".codex"@,
            platform,
        ),
    };
    path_joined(dir, "config.toml"@, platform)
}

/// Computes the configuration path from the values of `CODEX_HOME` and
/// `HOME` (`None` when unset).
pub fn config_path(codex_home: Option<&str>, home: Option<&str>, platform: Platform) -> (r:
    String)
    ensures
        r@ == codex_config_path(
            match codex_home {
                Some(c) => Some(c@),
                None => None::<Seq<char>>,
            },
            match home {
                Some(h) => Some(h@),
                None => None::<Seq<char>>,
            },
            platform,
        ),
{
    proof {
        reveal_strlit(".codex");
        reveal_strlit("config.toml");
        assert(is_plain_name(".codex"@)) by {
            assert(".codex"@ != seq!['.'] && ".codex"@ != seq!['.', '.']) by {
                assert(".codex"@.len() == 6);
            }
        }
        assert(is_plain_name("config.toml"@)) by {
            assert("config.toml"@ != seq!['.'] && "config.toml"@ != seq!['.', '.']) by {
                assert("config.toml"@.len() == 11);
            }
        }
    }
    let dir = match codex_home {
        Some(c) => String::from_str(c),
        None => {
            let h = match home {
                Some(h) => h,
                None => "/",
            };
            join_path(h, ".codex", platform)
        },
    };
    join_path(dir.as_str(), "config.toml", platform)
}

} // verus!
