//! Where test scenarios are looked for: a list of base paths, given
//! directly or by the `SWIFT_SCENARIO_PATH` variable.  Paths are held as
//! strings; reading the variable and the files is left to the caller.

use vstd::prelude::*;
use crate::text::{string_views, from_chars, to_chars};

verus! {

/// The pieces of `ps` that are not empty, in order.
pub open spec fn nonempty_pieces(ps: Seq<Seq<char>>) -> Seq<Seq<char>>
    decreases ps.len(),
{
    if ps.len() == 0 {
        Seq::empty()
    } else {
        let r = nonempty_pieces(ps.drop_last());
        if ps.last().len() > 0 {
            r.push(ps.last())
        } else {
            r
        }
    }
}

/// The paths of a variable value: the non-empty pieces between `:`.
pub open spec fn env_paths(value: Seq<char>) -> Seq<Seq<char>> {
    nonempty_pieces(crate::text::split_on(value, ':'))
}

/// The paths searched when no others are given.
pub open spec fn default_paths() -> Seq<Seq<char>> {
    seq!["test_scenarios"@, "../test_scenarios"@]
}

/// The paths of the configuration made from the variable's value, if it
/// is set: its paths, unless it names none.
pub open spec fn paths_from_env(value: Option<Seq<char>>) -> Seq<Seq<char>> {
    match value {
        Some(v) => if env_paths(v).len() > 0 {
            env_paths(v)
        } else {
            default_paths()
        },
        None => default_paths(),
    }
}

/// Parse environment variable paths (pieces separated by `:`; empty
/// pieces are dropped).
pub fn parse_env_paths(env_value: &str) -> (r: Vec<String>)
    ensures
        string_views(r@) == env_paths(env_value@),
{
    let s = to_chars(env_value);
    let mut done: Vec<String> = Vec::new();
    let mut cur: Vec<char> = Vec::new();
    let mut i: usize = 0;
    assert(s@.take(0) =~= Seq::<char>::empty());
    while i < s.len()
        invariant
            i <= s.len(),
            s@ == env_value@,
            crate::text::split_on(s@.take(i as int), ':').len() >= 1,
            string_views(done@) == nonempty_pieces(
                crate::text::split_on(s@.take(i as int), ':').drop_last(),
            ),
            cur@ == crate::text::split_on(s@.take(i as int), ':').last(),
        decreases s.len() - i,
    {
        let ghost prev = crate::text::split_on(s@.take(i as int), ':');
        let c = s[i];
        proof {
            assert(s@.take(i + 1).drop_last() =~= s@.take(i as int));
            assert(s@.take(i + 1).last() == c);
        }
        if c == ':' {
            let ghost before = string_views(done@);
            if cur.len() > 0 {
                done.push(from_chars(&cur));
                assert(string_views(done@) =~= before.push(cur@));
            }
            cur = Vec::new();
            proof {
                let next = crate::text::split_on(s@.take(i + 1), ':');
                assert(next.drop_last() =~= prev);
                assert(prev.drop_last().push(prev.last()) =~= prev);
            }
        } else {
            cur.push(c);
            proof {
                let next = crate::text::split_on(s@.take(i + 1), ':');
                assert(next.drop_last() =~= prev.drop_last());
            }
        }
        i = i + 1;
    }
    assert(s@.take(s.len() as int) =~= s@);
    let ghost p = crate::text::split_on(s@, ':');
    let ghost before = string_views(done@);
    if cur.len() > 0 {
        done.push(from_chars(&cur));
        assert(string_views(done@) =~= before.push(cur@));
    }
    assert(p.drop_last().push(p.last()) =~= p);
    done
}

/// Configuration for scenario file paths
#[derive(Debug, Clone)]
pub struct ScenarioConfig {
    /// Base paths to search for scenario files
    pub base_paths: Vec<String>,
}

impl View for ScenarioConfig {
    type V = Seq<Seq<char>>;

    open spec fn view(&self) -> Seq<Seq<char>> {
        string_views(self.base_paths@)
    }
}

/// The option of a string slice, as the specifications see it.
pub open spec fn opt_view(o: Option<&str>) -> Option<Seq<char>> {
    match o {
        Some(s) => Some(s@),
        None => None,
    }
}

impl Default for ScenarioConfig {
    /// The default paths, as with `SWIFT_SCENARIO_PATH` unset.
    fn default() -> (c: Self)
        ensures
            c@ == default_paths(),
    {
        let c = ScenarioConfig {
            base_paths: vec!["test_scenarios".to_string(), "../test_scenarios".to_string()],
        };
        assert(c@ =~= default_paths());
        c
    }
}

impl ScenarioConfig {
    /// The configuration given by the value of `SWIFT_SCENARIO_PATH`, if
    /// the variable is set: its paths, or the default paths where it names
    /// none.
    pub fn from_env_value(env_value: Option<&str>) -> (c: Self)
        ensures
            c@ == paths_from_env(opt_view(env_value)),
    {
        if let Some(v) = env_value {
            let paths = parse_env_paths(v);
            if paths.len() > 0 {
                return ScenarioConfig { base_paths: paths };
            }
        }
        ScenarioConfig::default()
    }

    /// Create a new configuration with default paths
    pub fn new() -> (c: Self)
        ensures
            c@ == default_paths(),
    {
        Self::default()
    }

    /// Create a configuration with specific paths
    pub fn with_paths(paths: Vec<String>) -> (c: Self)
        ensures
            c@ == string_views(paths@),
    {
        ScenarioConfig { base_paths: paths }
    }

    /// Add a path to the configuration
    pub fn add_path(self, path: String) -> (c: Self)
        ensures
            c@ == self@.push(path@),
    {
        let mut s = self;
        let ghost before = s@;
        s.base_paths.push(path);
        assert(s@ =~= before.push(path@));
        s
    }

    /// Clear all paths and set new ones
    pub fn set_paths(self, paths: Vec<String>) -> (c: Self)
        ensures
            c@ == string_views(paths@),
    {
        let mut s = self;
        s.base_paths = paths;
        s
    }
}

} // verus!
