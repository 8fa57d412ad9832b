use vstd::prelude::*;

use crate::text::{from_chars, starts_with_spec, str_eq, to_chars, views};

verus! {

/// How to reach the model: the key, the server, the model's name, and an
/// optional system prompt. A value "$NAME" stands for the environment variable NAME.
pub struct Config {
    pub api_key: String,
    pub base_url: String,
    pub model: String,
    pub system_prompt: Option<String>,
}

/// The value of the variable `name` among the environment entries `env`
/// (the first entry with that name).
pub open spec fn env_lookup(env: Seq<(String, String)>, name: Seq<char>) -> Option<Seq<char>>
    decreases env.len(),
{
    if env.len() == 0 {
        None
    } else if env[0].0@ == name {
        Some(env[0].1@)
    } else {
        env_lookup(env.drop_first(), name)
    }
}

/// The name of the environment variable that `value` stands for, when it starts with "$".
pub open spec fn env_reference_spec(value: Seq<char>) -> Option<Seq<char>> {
    if starts_with_spec(value, "$"@) {
        Some(value.skip(1))
    } else {
        None
    }
}

/// The name of the environment variable that `value` stands for, when it starts with "$".
pub fn env_reference(value: &str) -> (r: Option<String>)
    ensures
        match r {
            Some(n) => env_reference_spec(value@) == Some(n@),
            None => env_reference_spec(value@) is None,
        },
{
    let v = to_chars(value);
    proof {
        reveal_strlit("$");
        assert("$"@ =~= seq!['$']);
        if v@.len() > 0 {
            assert(v@.take(1) =~= seq![v@[0]]);
            if starts_with_spec(value@, "$"@) {
                assert(v@.take(1)[0] == '$');
            }
        }
    }
    if v.len() > 0 && v[0] == '$' {
        let rest = from_chars(&v.as_slice()[1..v.len()]);
        assert(v@.subrange(1, v@.len() as int) =~= value@.skip(1));
        Some(rest)
    } else {
        None
    }
}

/// The value of the variable `name` in the environment entries `env`.
pub fn lookup_env(env: &Vec<(String, String)>, name: &str) -> (r: Option<String>)
    ensures
        match r {
            Some(v) => env_lookup(env@, name@) == Some(v@),
            None => env_lookup(env@, name@) is None,
        },
{
    let n = env.len();
    assert(env@.skip(0) =~= env@);
    for i in 0..n
        invariant
            n == env@.len(),
            env_lookup(env@, name@) == env_lookup(env@.skip(i as int), name@),
    {
        assert(env@.skip(i as int)[0] == env@[i as int]);
        if str_eq(env[i].0.as_str(), name) {
            return Some(env[i].1.clone());
        }
        assert(env@.skip(i as int).drop_first() =~= env@.skip(i + 1));
    }
    None
}

/// What `value` becomes: the variable it names when it names one that is
/// set, and itself otherwise.
pub open spec fn resolve_spec(value: Seq<char>, env: Seq<(String, String)>) -> Seq<char> {
    match env_reference_spec(value) {
        Some(name) => match env_lookup(env, name) {
            Some(v) => v,
            None => value,
        },
        None => value,
    }
}

/// The warning for a value naming a variable that is not set.
pub open spec fn unset_warning(name: Seq<char>) -> Seq<char> {
    "Warning: environment variable '"@ + name + "' not set, using literal value"@
}

/// The warnings shown for `value`: one when it names a variable that is not
/// set in `env`, none otherwise.
pub open spec fn warnings_for(value: Seq<char>, env: Seq<(String, String)>) -> Seq<Seq<char>> {
    match env_reference_spec(value) {
        Some(name) => if env_lookup(env, name) is None {
            seq![unset_warning(name)]
        } else {
            seq![]
        },
        None => seq![],
    }
}

/// Resolves `value` in the environment `env`; also gives the warning to show
/// when it names a variable that is not set.
pub fn resolve_env(value: &str, env: &Vec<(String, String)>) -> (r: (String, Option<String>))
    ensures
        r.0@ == resolve_spec(value@, env@),
        match r.1 {
            Some(w) => env_reference_spec(value@) matches Some(name) && env_lookup(env@, name) is None
                && w@ == unset_warning(name),
            None => !(env_reference_spec(value@) matches Some(name) && env_lookup(env@, name) is None),
        },
{
    match env_reference(value) {
        Some(name) => match lookup_env(env, name.as_str()) {
            Some(v) => (v, None),
            None => {
                let mut w = String::new();
                w.append("Warning: environment variable '");
                w.append(name.as_str());
                w.append("' not set, using literal value");
                (value.to_owned(), Some(w))
            },
        },
        None => (value.to_owned(), None),
    }
}

impl Config {
    /// The configuration with each value that names an environment variable
    /// replaced by that variable from `env`, and the warnings for those not
    /// set, in the order of the fields.
    pub fn resolve(self, env: &Vec<(String, String)>) -> (r: (Config, Vec<String>))
        ensures
            r.0.api_key@ == resolve_spec(self.api_key@, env@),
            r.0.base_url@ == resolve_spec(self.base_url@, env@),
            r.0.model@ == resolve_spec(self.model@, env@),
            match self.system_prompt {
                Some(p) => r.0.system_prompt matches Some(q) && q@ == resolve_spec(p@, env@),
                None => r.0.system_prompt is None,
            },
            views(r.1@) == warnings_for(self.api_key@, env@) + warnings_for(self.base_url@, env@)
                + warnings_for(self.model@, env@) + match self.system_prompt {
                Some(p) => warnings_for(p@, env@),
                None => Seq::<Seq<char>>::empty(),
            },
    {
        let mut warnings: Vec<String> = Vec::new();
        let (api_key, w1) = resolve_env(self.api_key.as_str(), env);
        if let Some(w) = w1 {
            warnings.push(w);
        }
        assert(views(warnings@) =~= warnings_for(self.api_key@, env@));
        let (base_url, w2) = resolve_env(self.base_url.as_str(), env);
        let ghost before = views(warnings@);
        if let Some(w) = w2 {
            warnings.push(w);
        }
        assert(views(warnings@) =~= before + warnings_for(self.base_url@, env@));
        let (model, w3) = resolve_env(self.model.as_str(), env);
        let ghost before = views(warnings@);
        if let Some(w) = w3 {
            warnings.push(w);
        }
        assert(views(warnings@) =~= before + warnings_for(self.model@, env@));
        let ghost before = views(warnings@);
        let system_prompt = match &self.system_prompt {
            Some(p) => {
                let (v, w4) = resolve_env(p.as_str(), env);
                if let Some(w) = w4 {
                    warnings.push(w);
                }
                assert(views(warnings@) =~= before + warnings_for(p@, env@));
                Some(v)
            },
            None => {
                assert(views(warnings@) =~= before + Seq::<Seq<char>>::empty());
                None
            },
        };
        (Config { api_key, base_url, model, system_prompt }, warnings)
    }
}

/// A value that does not start with "$" is used as written, whatever the environment.
pub proof fn lemma_plain_value_unchanged(value: Seq<char>, env: Seq<(String, String)>)
    requires
        !starts_with_spec(value, "$"@),
    ensures
        resolve_spec(value, env) == value,
{
}

} // verus!
