//! Application-level configuration: registered spaces (named data
//! directories) and how a space name resolves to one of them.

use vstd::prelude::*;
use crate::textutil::str_eq;

verus! {

/// One registered space: a name and the data directory it stands for.
pub struct Space {
    pub name: String,
    pub path: String,
}

/// The path of the application configuration file inside its directory.
pub fn app_config_path(config_dir: &str) -> (r: String)
    ensures
        r@ == config_dir@ + "/config.toml"@,
{
    let mut r = String::from_str(config_dir);
    r.append("/config.toml");
    r
}

/// Some space carries the name.
pub open spec fn contains_space(s: Seq<Space>, name: Seq<char>) -> bool {
    exists|k: int| 0 <= k < s.len() && (#[trigger] s[k]).name@ == name
}

/// The index of the first space with the name, or `-1`.
pub open spec fn space_index(s: Seq<Space>, name: Seq<char>) -> int
    decreases s.len(),
{
    if s.len() == 0 {
        -1
    } else if s[0].name@ == name {
        0
    } else {
        let r = space_index(s.drop_first(), name);
        if r < 0 {
            -1
        } else {
            r + 1
        }
    }
}

pub proof fn lemma_space_index(s: Seq<Space>, name: Seq<char>)
    ensures
        -1 <= space_index(s, name) < s.len(),
        (space_index(s, name) >= 0) <==> contains_space(s, name),
        space_index(s, name) >= 0 ==> s[space_index(s, name)].name@ == name,
        forall|j: int| 0 <= j < space_index(s, name) ==> (#[trigger] s[j]).name@ != name,
    decreases s.len(),
{
    if s.len() > 0 && s[0].name@ != name {
        lemma_space_index(s.drop_first(), name);
        let r = space_index(s.drop_first(), name);
        if r >= 0 {
            assert(s[r + 1].name@ == name);
            assert forall|j: int| 0 <= j < space_index(s, name) implies (#[trigger] s[j]).name@
                != name by {
                if j > 0 {
                    assert(s.drop_first()[j - 1].name@ != name);
                }
            }
        } else {
            if contains_space(s, name) {
                let k = choose|k: int| 0 <= k < s.len() && (#[trigger] s[k]).name@ == name;
                assert(s.drop_first()[k - 1].name@ == name);
            }
        }
    }
}

/// How a space request resolves.
pub enum SpaceResolution {
    /// No spaces are configured at all.
    NoSpaces,
    /// The resolved data directory.
    Found(String),
    /// A name was given but no space carries it.
    UnknownName,
    /// No name was given, several spaces exist, and none is the default.
    Ambiguous,
}

/// Resolves a space name to its data directory: an explicit name must
/// exist; with no name the default space wins, then a sole configured
/// space; several spaces without a default cannot be resolved.
pub fn resolve_space(spaces: &Vec<Space>, default_space: Option<&str>, name: Option<&str>) -> (r:
    SpaceResolution)
    ensures
        spaces@.len() == 0 ==> r is NoSpaces,
        spaces@.len() > 0 ==> match name {
            Some(nm) => {
                if contains_space(spaces@, nm@) {
                    r matches SpaceResolution::Found(p) && p@ == spaces@[space_index(
                        spaces@,
                        nm@,
                    )].path@
                } else {
                    r is UnknownName
                }
            },
            None => {
                if default_space matches Some(d) && contains_space(spaces@, d@) {
                    r matches SpaceResolution::Found(p) && p@ == spaces@[space_index(
                        spaces@,
                        default_space.unwrap()@,
                    )].path@
                } else if spaces@.len() == 1 {
                    r matches SpaceResolution::Found(p) && p@ == spaces@[0].path@
                } else {
                    r is Ambiguous
                }
            },
        },
{
    if spaces.len() == 0 {
        return SpaceResolution::NoSpaces;
    }
    match name {
        Some(nm) => {
            match space_lookup(spaces, nm) {
                Some(p) => SpaceResolution::Found(p),
                None => SpaceResolution::UnknownName,
            }
        },
        None => {
            match default_space {
                Some(d) => {
                    match space_lookup(spaces, d) {
                        Some(p) => {
                            return SpaceResolution::Found(p);
                        },
                        None => {},
                    }
                    if spaces.len() == 1 {
                        SpaceResolution::Found(spaces[0].path.clone())
                    } else {
                        SpaceResolution::Ambiguous
                    }
                },
                None => {
                    if spaces.len() == 1 {
                        SpaceResolution::Found(spaces[0].path.clone())
                    } else {
                        SpaceResolution::Ambiguous
                    }
                },
            }
        },
    }
}

/// The data directory of the first space with the name.
fn space_lookup(spaces: &Vec<Space>, name: &str) -> (r: Option<String>)
    ensures
        contains_space(spaces@, name@) ==> (r matches Some(p) && p@ == spaces@[space_index(
            spaces@,
            name@,
        )].path@),
        !contains_space(spaces@, name@) ==> r is None,
{
    proof {
        lemma_space_index(spaces@, name@);
    }
    let n = spaces.len();
    let mut k: usize = 0;
    while k < n
        invariant
            n == spaces@.len(),
            0 <= k <= n,
            forall|j: int| 0 <= j < k ==> (#[trigger] spaces@[j]).name@ != name@,
        decreases n - k,
    {
        if str_eq(spaces[k].name.as_str(), name) {
            proof {
                lemma_space_index(spaces@, name@);
                assert(space_index(spaces@, name@) == k) by {
                    if space_index(spaces@, name@) < k {
                        assert(spaces@[space_index(spaces@, name@)].name@ != name@);
                    }
                    if space_index(spaces@, name@) > k {
                        assert(spaces@[k as int].name@ != name@);
                    }
                }
            }
            return Some(spaces[k].path.clone());
        }
        k += 1;
    }
    None
}

/// Registers (or re-points) a space; the first space ever registered
/// becomes the default.
pub fn add_space(spaces: &mut Vec<Space>, name: &str, path: &str) -> (made_default: bool)
    ensures
        contains_id_unchanged_len(old(spaces)@, final(spaces)@, name@),
        contains_space(final(spaces)@, name@),
        made_default == (final(spaces)@.len() == 1),
{
    let n = spaces.len();
    let mut k: usize = 0;
    while k < n
        invariant
            n == spaces@.len(),
            0 <= k <= n,
            old(spaces)@ == spaces@,
            forall|j: int| 0 <= j < k ==> (#[trigger] spaces@[j]).name@ != name@,
        decreases n - k,
    {
        if str_eq(spaces[k].name.as_str(), name) {
            let entry = Space { name: String::from_str(name), path: String::from_str(path) };
            spaces.set(k, entry);
            proof {
                assert(spaces@[k as int].name@ == name@);
                assert(spaces@.len() == old(spaces)@.len());
            }
            return spaces.len() == 1;
        }
        k += 1;
    }
    let entry = Space { name: String::from_str(name), path: String::from_str(path) };
    spaces.push(entry);
    proof {
        assert(spaces@[spaces@.len() - 1].name@ == name@);
    }
    spaces.len() == 1
}

/// Re-registering a name keeps the space count; a new name adds one.
pub open spec fn contains_id_unchanged_len(
    before: Seq<Space>,
    after: Seq<Space>,
    name: Seq<char>,
) -> bool {
    if contains_space(before, name) {
        after.len() == before.len()
    } else {
        after.len() == before.len() + 1
    }
}

} // verus!
