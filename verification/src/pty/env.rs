//! The environment of a terminal: what the program itself runs with, with changes on top.
use crate::platform::Os;
use crate::text::{ascii_lowercase, eq_ignore_ascii_case, same_text};
use vstd::prelude::*;

verus! {

/// A name and a value.
pub type VarView = (Seq<char>, Seq<char>);

/// The model of a variable.
pub open spec fn var_view(var: (String, String)) -> VarView {
    (var.0@, var.1@)
}

/// The models of variables.
pub open spec fn var_views(vars: Seq<(String, String)>) -> Seq<VarView> {
    vars.map_values(|v: (String, String)| var_view(v))
}

/// What tells variables apart: the name, on Windows without regard to the case of ASCII letters.
pub open spec fn var_key(os: Os, name: Seq<char>) -> Seq<char> {
    if os is Windows {
        ascii_lowercase(name)
    } else {
        name
    }
}

/// The variable stands in the list at this place.
pub open spec fn is_at(os: Os, vars: Seq<VarView>, key: Seq<char>, i: int) -> bool {
    0 <= i < vars.len() && var_key(os, vars[i].0) == key
}

/// The list as a map from what tells variables apart to the variables.
pub open spec fn by_key(os: Os, vars: Seq<VarView>) -> Map<Seq<char>, VarView> {
    Map::new(
        |key: Seq<char>| exists|i: int| is_at(os, vars, key, i),
        |key: Seq<char>| vars[choose|i: int| is_at(os, vars, key, i)],
    )
}

/// No variable stands in the list twice.
pub open spec fn keys_differ(os: Os, vars: Seq<VarView>) -> bool {
    forall|i: int, j: int|
        #![trigger vars[i], vars[j]]
        0 <= i < j < vars.len() ==> var_key(os, vars[i].0) != var_key(os, vars[j].0)
}

pub(crate) proof fn lemma_by_key(os: Os, vars: Seq<VarView>, i: int)
    requires
        keys_differ(os, vars),
        0 <= i < vars.len(),
    ensures
        by_key(os, vars).dom().contains(var_key(os, vars[i].0)),
        by_key(os, vars)[var_key(os, vars[i].0)] == vars[i],
{
    let key = var_key(os, vars[i].0);
    assert(is_at(os, vars, key, i));
    let j = choose|j: int| is_at(os, vars, key, j);
    assert(is_at(os, vars, key, j));
    if i != j {
        assert(vars[i] == vars[i] && vars[j] == vars[j]);
    }
}

/// An environment: no variable stands in it twice.
#[derive(Debug, Clone)]
pub struct Environment {
    os: Os,
    vars: Vec<(String, String)>,
}

impl View for Environment {
    type V = Map<Seq<char>, VarView>;

    closed spec fn view(&self) -> Map<Seq<char>, VarView> {
        by_key(self.os, var_views(self.vars@))
    }
}

impl Environment {
    /// The system whose rule tells the variables apart.
    pub closed spec fn os(&self) -> Os {
        self.os
    }

    /// No variable stands in the environment twice.
    pub closed spec fn wf(&self) -> bool {
        keys_differ(self.os, var_views(self.vars@))
    }

    /// An environment without variables.
    pub fn new(os: Os) -> (env: Self)
        ensures
            env.wf(),
            env.os() == os,
            env@ == Map::<Seq<char>, VarView>::empty(),
    {
        let env = Environment { os, vars: Vec::new() };
        assert(env@ =~= Map::<Seq<char>, VarView>::empty());
        env
    }

    fn same_key(&self, a: &str, b: &str) -> (same: bool)
        ensures
            same == (var_key(self.os, a@) == var_key(self.os, b@)),
    {
        match self.os {
            Os::Windows => eq_ignore_ascii_case(a, b),
            _ => same_text(a, b),
        }
    }

    fn place(&self, name: &str) -> (at: Option<usize>)
        ensures
            match at {
                Some(i) => is_at(
                    self.os,
                    var_views(self.vars@),
                    var_key(self.os, name@),
                    i as int,
                ),
                None => forall|i: int|
                    !is_at(self.os, var_views(self.vars@), var_key(self.os, name@), i),
            },
    {
        let ghost vars = var_views(self.vars@);
        let ghost key = var_key(self.os, name@);
        let mut i: usize = 0;
        while i < self.vars.len()
            invariant
                i <= self.vars@.len(),
                vars == var_views(self.vars@),
                key == var_key(self.os, name@),
                forall|j: int| 0 <= j < i ==> !is_at(self.os, vars, key, j),
            decreases self.vars.len() - i,
        {
            assert(vars[i as int].0 == self.vars@[i as int].0@);
            if self.same_key(self.vars[i].0.as_str(), name) {
                return Some(i);
            }
            i += 1;
        }
        None
    }

    /// Is there a variable of this name?
    pub fn has_var(&self, name: &str) -> (has: bool)
        ensures
            has == self@.dom().contains(var_key(self.os(), name@)),
    {
        self.place(name).is_some()
    }

    /// The value of a variable.
    pub fn value_of(&self, name: &str) -> (value: Option<String>)
        requires
            self.wf(),
        ensures
            match value {
                Some(v) => {
                    &&& self@.dom().contains(var_key(self.os(), name@))
                    &&& v@ == self@[var_key(self.os(), name@)].1
                },
                None => !self@.dom().contains(var_key(self.os(), name@)),
            },
    {
        match self.place(name) {
            Some(i) => {
                proof {
                    lemma_by_key(self.os, var_views(self.vars@), i as int);
                }
                Some(self.vars[i].1.clone())
            },
            None => None,
        }
    }

    /// Sets a variable, under this name: a variable that the system does not tell apart from it
    /// leaves the environment.
    pub fn upsert(&mut self, name: &str, value: String)
        requires
            old(self).wf(),
        ensures
            final(self).wf(),
            final(self).os() == old(self).os(),
            final(self)@ == old(self)@.insert(var_key(old(self).os(), name@), (name@, value@)),
    {
        let ghost os = self.os;
        let ghost was = var_views(self.vars@);
        let ghost key = var_key(os, name@);
        let ghost var = (name@, value@);
        let found = self.place(name);
        match found {
            Some(i) => {
                self.vars.remove(i);
            },
            None => {},
        }
        let ghost rest = var_views(self.vars@);
        self.vars.push((name.to_owned(), value));
        proof {
            let now = var_views(self.vars@);
            assert(now =~= rest.push(var));
            match found {
                Some(i) => {
                    assert(rest =~= was.remove(i as int));
                },
                None => {
                    assert(rest =~= was);
                },
            }
            lemma_replaced(os, was, now, key, var, match found {
                Some(i) => Some(i as int),
                None => None,
            });
        }
    }

    /// The variables, in no particular order.
    pub fn pairs(&self) -> (pairs: Vec<(String, String)>)
        requires
            self.wf(),
        ensures
            keys_differ(self.os(), var_views(pairs@)),
            by_key(self.os(), var_views(pairs@)) == self@,
    {
        let mut pairs: Vec<(String, String)> = Vec::new();
        let mut i: usize = 0;
        while i < self.vars.len()
            invariant
                i <= self.vars@.len(),
                pairs@.len() == i,
                forall|j: int| 0 <= j < i ==> var_view(pairs@[j]) == var_view(self.vars@[j]),
            decreases self.vars.len() - i,
        {
            let name = self.vars[i].0.clone();
            let value = self.vars[i].1.clone();
            pairs.push((name, value));
            i += 1;
        }
        assert(var_views(pairs@) =~= var_views(self.vars@));
        pairs
    }
}

proof fn lemma_replaced(
    os: Os,
    was: Seq<VarView>,
    now: Seq<VarView>,
    key: Seq<char>,
    var: VarView,
    found: Option<int>,
)
    requires
        keys_differ(os, was),
        var_key(os, var.0) == key,
        match found {
            Some(i) => is_at(os, was, key, i) && now == was.remove(i).push(var),
            None => (forall|i: int| !is_at(os, was, key, i)) && now == was.push(var),
        },
    ensures
        keys_differ(os, now),
        by_key(os, now) == by_key(os, was).insert(key, var),
{
    let cut: int = match found {
        Some(i) => i,
        None => was.len() as int,
    };
    let last = now.len() - 1;
    // Where the variables in front of the new one come from.
    assert forall|j: int| 0 <= j < last implies #[trigger] now[j] == was[if j < cut {
        j
    } else {
        j + 1
    }] by {}
    assert(now[last] == var);
    assert forall|j: int| 0 <= j < last implies var_key(os, (#[trigger] now[j]).0) != key by {
        let k = if j < cut {
            j
        } else {
            j + 1
        };
        if found is Some {
            assert(was[k] == was[k] && was[cut] == was[cut]);
        } else {
            assert(!is_at(os, was, key, k));
        }
    }
    assert forall|i: int, j: int|
        #![trigger now[i], now[j]]
        0 <= i < j < now.len() implies var_key(os, now[i].0) != var_key(os, now[j].0) by {
        if j < last {
            let a = if i < cut {
                i
            } else {
                i + 1
            };
            let b = if j < cut {
                j
            } else {
                j + 1
            };
            assert(was[a] == was[a] && was[b] == was[b]);
        }
    }
    let left = by_key(os, now);
    let right = by_key(os, was).insert(key, var);
    assert forall|k: Seq<char>| left.dom().contains(k) <==> right.dom().contains(k) by {
        if left.dom().contains(k) && k != key {
            let j = choose|j: int| is_at(os, now, k, j);
            assert(j < last);
            assert(is_at(os, was, k, if j < cut {
                j
            } else {
                j + 1
            }));
        }
        if right.dom().contains(k) {
            if k == key {
                assert(is_at(os, now, key, last));
            } else {
                let i = choose|i: int| is_at(os, was, k, i);
                assert(is_at(os, now, k, if i < cut {
                    i
                } else {
                    i - 1
                }));
            }
        }
    }
    assert forall|k: Seq<char>| left.dom().contains(k) implies left[k] == right[k] by {
        let j = choose|j: int| is_at(os, now, k, j);
        lemma_by_key(os, now, j);
        if j < last {
            lemma_by_key(os, was, if j < cut {
                j
            } else {
                j + 1
            });
        }
    }
    assert(left =~= right);
}

/// The environment with more variables set, one after the other.
pub open spec fn with_vars(
    os: Os,
    env: Map<Seq<char>, VarView>,
    vars: Seq<VarView>,
) -> Map<Seq<char>, VarView>
    decreases vars.len(),
{
    if vars.len() == 0 {
        env
    } else {
        with_vars(os, env, vars.drop_last()).insert(var_key(os, vars.last().0), vars.last())
    }
}

/// The environment with a variable set if it is missing.
pub open spec fn with_default(
    os: Os,
    env: Map<Seq<char>, VarView>,
    name: Seq<char>,
    value: Seq<char>,
) -> Map<Seq<char>, VarView> {
    if env.dom().contains(var_key(os, name)) {
        env
    } else {
        env.insert(var_key(os, name), (name, value))
    }
}

/// Custom variables, none where there are no custom ones.
pub open spec fn custom_views(custom: Option<Vec<(String, String)>>) -> Seq<VarView> {
    match custom {
        Some(vars) => var_views(vars@),
        None => Seq::empty(),
    }
}

/// The text, or another where there is none.
pub open spec fn text_or(text: Option<String>, other: Seq<char>) -> Seq<char> {
    match text {
        Some(t) => t@,
        None => other,
    }
}

/// The environment of a terminal on Windows. `path` and `pathext` are what the program itself
/// finds under these names.
pub open spec fn windows_environment(
    base: Seq<VarView>,
    custom: Seq<VarView>,
    path: Option<String>,
    pathext: Option<String>,
) -> Map<Seq<char>, VarView> {
    with_default(
        Os::Windows,
        with_default(
            Os::Windows,
            with_vars(Os::Windows, with_vars(Os::Windows, Map::empty(), base), custom),
            "Path"@,
            text_or(path, ""@),
        ),
        "PATHEXT"@,
        text_or(pathext, ".COM;.EXE;.BAT;.CMD"@),
    )
}

/// The environment of a terminal on a system other than Windows.
pub open spec fn unix_environment(os: Os, base: Seq<VarView>, custom: Seq<VarView>) -> Map<
    Seq<char>,
    VarView,
> {
    with_default(
        os,
        with_vars(os, with_vars(os, Map::empty(), base), custom),
        "PATH"@,
        "/usr/bin:/bin"@,
    )
}

/// Is there a variable of this name, whatever the case of its letters?
pub fn has_windows_env_var(env: &Environment, key: &str) -> (has: bool)
    requires
        env.os() is Windows,
    ensures
        has == env@.dom().contains(ascii_lowercase(key@)),
{
    env.has_var(key)
}

/// Sets a variable under this name, in place of one whose name differs in the case of its letters
/// alone.
pub fn upsert_windows_env_var(env: &mut Environment, key: &str, value: String)
    requires
        old(env).wf(),
        old(env).os() is Windows,
    ensures
        final(env).wf(),
        final(env).os() is Windows,
        final(env)@ == old(env)@.insert(ascii_lowercase(key@), (key@, value@)),
{
    env.upsert(key, value)
}

fn set_all(env: &mut Environment, vars: &Vec<(String, String)>)
    requires
        old(env).wf(),
    ensures
        final(env).wf(),
        final(env).os() == old(env).os(),
        final(env)@ == with_vars(old(env).os(), old(env)@, var_views(vars@)),
{
    let ghost start = env@;
    let ghost all = var_views(vars@);
    let ghost os = env.os();
    let mut i: usize = 0;
    assert(all.take(0) =~= Seq::empty());
    while i < vars.len()
        invariant
            i <= vars@.len(),
            all == var_views(vars@),
            env.wf(),
            env.os() == os,
            env@ == with_vars(os, start, all.take(i as int)),
        decreases vars.len() - i,
    {
        let ghost now = all.take(i + 1);
        assert(now.drop_last() =~= all.take(i as int));
        assert(now.last() == var_view(vars@[i as int]));
        let value = vars[i].1.clone();
        env.upsert(vars[i].0.as_str(), value);
        i += 1;
    }
    assert(all.take(i as int) =~= all);
}

/// The environment of a terminal on Windows: what the program runs with, the custom variables in
/// place of what they name, and a search path and executable extensions in any case.
pub fn merge_windows_environment_map(
    base_env: &Vec<(String, String)>,
    custom_env: &Option<Vec<(String, String)>>,
    path: Option<String>,
    pathext: Option<String>,
) -> (env: Environment)
    ensures
        env.wf(),
        env.os() is Windows,
        env@ == windows_environment(
            var_views(base_env@),
            custom_views(*custom_env),
            path,
            pathext,
        ),
{
    let mut env = Environment::new(Os::Windows);
    set_all(&mut env, base_env);
    match custom_env {
        Some(custom) => {
            set_all(&mut env, custom);
        },
        None => {},
    }
    if !has_windows_env_var(&env, "Path") {
        let value = match path {
            Some(p) => p,
            None => "".to_owned(),
        };
        upsert_windows_env_var(&mut env, "Path", value);
    }
    if !has_windows_env_var(&env, "PATHEXT") {
        let value = match pathext {
            Some(p) => p,
            None => ".COM;.EXE;.BAT;.CMD".to_owned(),
        };
        upsert_windows_env_var(&mut env, "PATHEXT", value);
    }
    env
}

/// The environment of a terminal: what the program runs with, the custom variables in place of
/// what they name, and a search path in any case. `path` and `pathext` are what the program finds
/// under these names; they matter on Windows alone.
pub open spec fn merged_environment(
    os: Os,
    base: Seq<VarView>,
    custom: Seq<VarView>,
    path: Option<String>,
    pathext: Option<String>,
) -> Map<Seq<char>, VarView> {
    if os is Windows {
        windows_environment(base, custom, path, pathext)
    } else {
        unix_environment(os, base, custom)
    }
}

/// The environment of a terminal.
pub fn merge_environment(
    os: Os,
    base_env: &Vec<(String, String)>,
    custom_env: &Option<Vec<(String, String)>>,
    path: Option<String>,
    pathext: Option<String>,
) -> (env: Environment)
    ensures
        env.wf(),
        env.os() == os,
        env@ == merged_environment(
            os,
            var_views(base_env@),
            custom_views(*custom_env),
            path,
            pathext,
        ),
{
    match os {
        Os::Windows => merge_windows_environment_map(base_env, custom_env, path, pathext),
        _ => {
            let mut env = Environment::new(os);
            set_all(&mut env, base_env);
            match custom_env {
                Some(custom) => {
                    set_all(&mut env, custom);
                },
                None => {},
            }
            if !env.has_var("PATH") {
                env.upsert("PATH", "/usr/bin:/bin".to_owned());
            }
            env
        },
    }
}

/// The last variable of this key in a list is at this place.
pub open spec fn is_last_at(os: Os, vars: Seq<VarView>, key: Seq<char>, i: int) -> bool {
    &&& is_at(os, vars, key, i)
    &&& forall|j: int| i < j < vars.len() ==> var_key(os, (#[trigger] vars[j]).0) != key
}

proof fn lemma_with_vars_last(
    os: Os,
    env: Map<Seq<char>, VarView>,
    vars: Seq<VarView>,
    key: Seq<char>,
    i: int,
)
    requires
        is_last_at(os, vars, key, i),
    ensures
        with_vars(os, env, vars).dom().contains(key),
        with_vars(os, env, vars)[key] == vars[i],
    decreases vars.len(),
{
    if i < vars.len() - 1 {
        assert(vars[vars.len() - 1] == vars.last());
        let rest = vars.drop_last();
        assert forall|j: int| i < j < rest.len() implies var_key(os, (#[trigger] rest[j]).0)
            != key by {
            assert(vars[j] == rest[j]);
        }
        lemma_with_vars_last(os, env, rest, key, i);
    }
}

pub(crate) proof fn lemma_with_vars_none(
    os: Os,
    env: Map<Seq<char>, VarView>,
    vars: Seq<VarView>,
    key: Seq<char>,
)
    requires
        forall|i: int| !is_at(os, vars, key, i),
    ensures
        with_vars(os, env, vars).dom().contains(key) == env.dom().contains(key),
        env.dom().contains(key) ==> with_vars(os, env, vars)[key] == env[key],
    decreases vars.len(),
{
    if vars.len() > 0 {
        assert(!is_at(os, vars, key, vars.len() - 1));
        let rest = vars.drop_last();
        assert forall|i: int| !is_at(os, rest, key, i) by {
            assert(!is_at(os, vars, key, i));
        }
        lemma_with_vars_none(os, env, rest, key);
    }
}

/// A custom variable stands in the environment, with its name and value as they were given; of
/// several that are not told apart, the last.
pub proof fn law_custom_overrides(
    os: Os,
    base: Seq<VarView>,
    custom: Seq<VarView>,
    path: Option<String>,
    pathext: Option<String>,
    i: int,
)
    requires
        0 <= i < custom.len(),
        is_last_at(os, custom, var_key(os, custom[i].0), i),
    ensures
        ({
            let env = merged_environment(os, base, custom, path, pathext);
            let key = var_key(os, custom[i].0);
            env.dom().contains(key) && env[key] == custom[i]
        }),
{
    lemma_with_vars_last(
        os,
        with_vars(os, Map::empty(), base),
        custom,
        var_key(os, custom[i].0),
        i,
    );
}

/// What no custom variable names stays as it is.
pub proof fn law_base_preserved(
    os: Os,
    base: Seq<VarView>,
    custom: Seq<VarView>,
    path: Option<String>,
    pathext: Option<String>,
    i: int,
)
    requires
        0 <= i < base.len(),
        is_last_at(os, base, var_key(os, base[i].0), i),
        forall|j: int| !is_at(os, custom, var_key(os, base[i].0), j),
    ensures
        ({
            let env = merged_environment(os, base, custom, path, pathext);
            let key = var_key(os, base[i].0);
            env.dom().contains(key) && env[key] == base[i]
        }),
{
    let key = var_key(os, base[i].0);
    lemma_with_vars_last(os, Map::empty(), base, key, i);
    lemma_with_vars_none(os, with_vars(os, Map::empty(), base), custom, key);
}

/// Every terminal has a search path.
pub proof fn law_search_path_present(
    os: Os,
    base: Seq<VarView>,
    custom: Seq<VarView>,
    path: Option<String>,
    pathext: Option<String>,
)
    ensures
        merged_environment(os, base, custom, path, pathext).dom().contains(var_key(os, "PATH"@)),
{
    reveal_strlit("PATH");
    reveal_strlit("Path");
    assert(ascii_lowercase("PATH"@) =~= ascii_lowercase("Path"@));
}

}
