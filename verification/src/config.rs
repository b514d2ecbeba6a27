//! The model aliases that the configuration declares.

use crate::string_map::{ordered_keys_are_unique, strictly_ordered, StringMap};
use crate::text::{before, joined};
use vstd::prelude::*;
use vstd::string::*;

verus! {

/// One declared alias.
#[derive(Debug)]
pub struct AliasConfig {
    pub provider: String,
    pub model: String,
    /// How often the alias may be called in one session.
    pub max_calls_per_session: Option<u32>,
    /// The environment variable that holds the API key.
    pub api_key_env: Option<String>,
    /// The API key itself.
    pub api_key: Option<String>,
}

/// One declared alias, with texts as sequences of characters.
pub struct AliasView {
    pub provider: Seq<char>,
    pub model: Seq<char>,
    pub max_calls: Option<nat>,
    pub api_key_env: Option<Seq<char>>,
    pub api_key: Option<Seq<char>>,
}

/// The characters of an optional text.
pub open spec fn opt_text(text: Option<String>) -> Option<Seq<char>> {
    match text {
        Some(s) => Some(s@),
        None => None,
    }
}

impl View for AliasConfig {
    type V = AliasView;

    open spec fn view(&self) -> AliasView {
        AliasView {
            provider: self.provider@,
            model: self.model@,
            max_calls: match self.max_calls_per_session {
                Some(max) => Some(max as nat),
                None => None,
            },
            api_key_env: opt_text(self.api_key_env),
            api_key: opt_text(self.api_key),
        }
    }
}

impl Clone for AliasConfig {
    fn clone(&self) -> (copy: Self)
        ensures
            copy@ == self@,
    {
        AliasConfig {
            provider: self.provider.clone(),
            model: self.model.clone(),
            max_calls_per_session: self.max_calls_per_session,
            api_key_env: copy_text(&self.api_key_env),
            api_key: copy_text(&self.api_key),
        }
    }
}

/// The API key of an alias: what the environment gives, or else what the configuration gives.
pub open spec fn api_key_of(alias: AliasView, env_value: Option<Seq<char>>) -> Option<Seq<char>> {
    if env_value is Some {
        env_value
    } else {
        alias.api_key
    }
}

impl AliasConfig {
    /// The API key: `env_value`, which is what the environment variable holds, or else the key that
    /// the configuration gives.
    pub fn resolve_api_key(&self, env_value: Option<String>) -> (api_key: Option<String>)
        ensures
            opt_text(api_key) == api_key_of(self@, opt_text(env_value)),
    {
        match env_value {
            Some(value) => Some(value),
            None => copy_text(&self.api_key),
        }
    }
}

/// A copy of an optional text.
pub fn copy_text(text: &Option<String>) -> (copy: Option<String>)
    ensures
        opt_text(copy) == opt_text(*text),
{
    match text {
        Some(s) => Some(s.clone()),
        None => None,
    }
}

/// The aliases that are declared, by name.
pub struct ModelsConfig {
    pub aliases: StringMap<AliasConfig>,
}

impl View for ModelsConfig {
    type V = Map<Seq<char>, AliasView>;

    open spec fn view(&self) -> Map<Seq<char>, AliasView> {
        self.aliases@.map_values(|alias: AliasConfig| alias@)
    }
}

/// `keys` are the names in `aliases`, in order.
pub open spec fn lists_names(keys: Seq<Seq<char>>, aliases: Map<Seq<char>, AliasView>) -> bool {
    &&& strictly_ordered(keys)
    &&& forall|key: Seq<char>| #[trigger] keys.contains(key) == aliases.dom().contains(key)
}

/// The names in `aliases`, in order.
pub open spec fn ordered_names(aliases: Map<Seq<char>, AliasView>) -> Seq<Seq<char>> {
    choose|keys: Seq<Seq<char>>| lists_names(keys, aliases)
}

/// The names in `aliases`, in order, with commas between them.
pub open spec fn name_list(aliases: Map<Seq<char>, AliasView>) -> Seq<char> {
    let names = ordered_names(aliases);
    joined(names, ", "@, names.len())
}

/// The names of a configuration are its keys: there is one way to put them in order.
pub proof fn names_have_one_order(keys: Seq<Seq<char>>, aliases: Map<Seq<char>, AliasView>)
    requires
        lists_names(keys, aliases),
    ensures
        ordered_names(aliases) == keys,
{
    ordered_keys_are_unique(ordered_names(aliases), keys);
}

impl ModelsConfig {
    /// The map of the aliases is in order.
    pub open spec fn wf(&self) -> bool {
        self.aliases.wf()
    }

    /// The names of the aliases, in order, with commas between them.
    pub fn available(&self) -> (names: String)
        requires
            self.wf(),
        ensures
            names@ == name_list(self@),
    {
        let n = self.aliases.len();
        let ghost keys = self.aliases.keys();
        proof {
            assert(lists_names(keys, self@));
            names_have_one_order(keys, self@);
        }
        let mut names = String::new();
        let mut i: usize = 0;
        while i < n
            invariant
                i <= n,
                n == keys.len(),
                keys == self.aliases.keys(),
                names@ == joined(keys, ", "@, i as nat),
            decreases n - i,
        {
            if i > 0 {
                names.append(", ");
            }
            names.append(self.aliases.key_at(i));
            i = i + 1;
            assert(names@ =~= joined(keys, ", "@, i as nat));
        }
        names
    }
}

// ---- laws ----

/// A declared alias is seen with all that it holds, and a configuration with all its aliases.
pub proof fn declarations_are_seen_whole(alias: AliasConfig, config: ModelsConfig, name: Seq<char>)
    ensures
        alias@.provider == alias.provider@,
        alias@.model == alias.model@,
        alias.max_calls_per_session is None ==> alias@.max_calls is None,
        alias.max_calls_per_session matches Some(max) ==> alias@.max_calls == Some(max as nat),
        alias.api_key_env is None ==> alias@.api_key_env is None,
        alias.api_key_env matches Some(variable) ==> alias@.api_key_env == Some(variable@),
        alias.api_key is None ==> alias@.api_key is None,
        alias.api_key matches Some(key) ==> alias@.api_key == Some(key@),
        config@.dom() == config.aliases@.dom(),
        config.aliases@.dom().contains(name) ==> config@[name] == config.aliases@[name]@,
{
    assert(config@.dom() =~= config.aliases@.dom());
}

/// The key of the environment goes before that of the configuration, which is taken where the
/// environment has none; where there is neither, there is no key.
pub proof fn the_environment_goes_first(alias: AliasView, env: Seq<char>, key: Seq<char>)
    ensures
        api_key_of(alias, Some(env)) == Some(env),
        alias.api_key == Some(key) ==> api_key_of(alias, None) == Some(key),
        alias.api_key is None ==> api_key_of(alias, None) is None,
{
}

/// The list of the aliases names each of them once, in the order of their code points, with a comma
/// and a blank between two neighbours.
pub proof fn name_lists_are_complete_and_ordered(
    keys: Seq<Seq<char>>,
    aliases: Map<Seq<char>, AliasView>,
)
    requires
        forall|i: int, j: int|
            0 <= i < j < keys.len() ==> before(#[trigger] keys[i], #[trigger] keys[j]),
        forall|key: Seq<char>| #[trigger] keys.contains(key) == aliases.dom().contains(key),
    ensures
        name_list(aliases) == joined(keys, seq![',', ' '], keys.len()),
{
    reveal_strlit(", ");
    assert(", "@ =~= seq![',', ' ']);
    assert(lists_names(keys, aliases));
    names_have_one_order(keys, aliases);
}

} // verus!
