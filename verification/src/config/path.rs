//! Where the configuration file is.

use crate::text;
use vstd::prelude::*;

verus! {

/// `dir` with `name` below it. A directory that ends in a slash gets no second
/// one, and an empty one leaves `name` alone.
pub open spec fn below(dir: Seq<char>, name: Seq<char>) -> Seq<char> {
    if dir.len() == 0 || dir.last() == '/' {
        dir + name
    } else {
        dir + seq!['/'] + name
    }
}

/// Join a relative `name` below `dir`.
pub fn join_below(dir: &str, name: &str) -> (path: String)
    ensures
        path@ == below(dir@, name@),
{
    match text::strip_suffix(dir, "/") {
        Some(_) => {
            proof {
                reveal_strlit("/");
                assert("/"@.is_suffix_of(dir@));
                assert(dir@.last() == "/"@[0]);
            }
            text::joined(dir, name)
        },
        None => {
            proof {
                reveal_strlit("/");
                if dir@.len() > 0 && dir@.last() == '/' {
                    assert(dir@.subrange(dir@.len() - 1, dir@.len() as int) =~= "/"@);
                    assert("/"@.is_suffix_of(dir@));
                }
                assert(seq!['/'] =~= "/"@);
            }
            if dir.is_empty() {
                assert(dir@ + name@ =~= name@);
                name.to_owned()
            } else {
                let slashed: String = text::joined(dir, "/");
                text::joined(slashed.as_str(), name)
            }
        },
    }
}

/// Where the configuration file is, given the two environment values that say
/// where configuration lives.
pub open spec fn config_path(xdg: Option<Seq<char>>, home: Option<Seq<char>>) -> Option<Seq<char>> {
    match xdg {
        Some(xdg) if xdg.len() > 0 => Some(below(xdg, "tablero/config.toml"@)),
        _ => match home {
            Some(home) if home.len() > 0 => Some(below(home, ".config/tablero/config.toml"@)),
            _ => None,
        },
    }
}

/// The configuration file path from the values of `XDG_CONFIG_HOME` and `HOME`.
///
/// An exported-but-empty value counts as unset. With nothing to resolve against
/// there is no path, and the built-in defaults stand.
pub fn config_file_path_from(xdg: Option<&str>, home: Option<&str>) -> (path: Option<String>)
    ensures
        text::optional(path) == config_path(text::optional_str(xdg), text::optional_str(home)),
{
    if let Some(xdg) = xdg {
        if !xdg.is_empty() {
            return Some(join_below(xdg, "tablero/config.toml"));
        }
    }
    if let Some(home) = home {
        if !home.is_empty() {
            return Some(join_below(home, ".config/tablero/config.toml"));
        }
    }
    None
}

/// The configuration is looked for in the user's configuration directory, and in the usual
/// place below the home directory only where there is none.
pub proof fn lemma_the_configuration_directory_comes_first(
    xdg: Option<&str>,
    home: Option<&str>,
    path: Option<String>,
)
    requires
        call_ensures(config_file_path_from, (xdg, home), path),
    ensures
        xdg is Some && xdg->0@.len() > 0 ==> path is Some && stands_below(
            xdg->0@,
            "tablero/config.toml"@,
            path->0@,
        ),
        (xdg is None || xdg->0@.len() == 0) && home is Some && home->0@.len() > 0 ==> path is Some
            && stands_below(home->0@, ".config/tablero/config.toml"@, path->0@),
        (xdg is None || xdg->0@.len() == 0) && (home is None || home->0@.len() == 0)
            ==> path is None,
{
    if xdg is Some && xdg->0@.len() > 0 {
        lemma_below(xdg->0@, "tablero/config.toml"@);
    } else if home is Some && home->0@.len() > 0 {
        lemma_below(home->0@, ".config/tablero/config.toml"@);
    }
}

/// Whether a path begins with a directory and ends with a name, with at most a slash in
/// between.
pub open spec fn stands_below(dir: Seq<char>, name: Seq<char>, path: Seq<char>) -> bool {
    &&& dir.is_prefix_of(path)
    &&& name.is_suffix_of(path)
    &&& dir.len() + name.len() <= path.len() <= dir.len() + name.len() + 1
    &&& path.len() > dir.len() + name.len() ==> path[dir.len() as int] == '/'
}

proof fn lemma_below(dir: Seq<char>, name: Seq<char>)
    ensures
        stands_below(dir, name, below(dir, name)),
{
    let path = below(dir, name);
    assert(path.take(dir.len() as int) =~= dir);
    assert(path.skip(path.len() - name.len()) =~= name);
}

/// A name below a directory is the directory and the name, with one slash between them.
pub proof fn lemma_one_slash_stands_between(dir: &str, name: &str, path: String)
    requires
        call_ensures(join_below, (dir, name), path),
        dir@.len() > 0,
    ensures
        dir@.last() == '/' ==> path@ == dir@ + name@,
        dir@.last() != '/' ==> path@ == dir@ + seq!['/'] + name@,
{
}

} // verus!
