//! Where the bundler's configuration lives: the user's configuration
//! directory and the system-wide configuration file candidates.
use vstd::prelude::*;

use etcetera::BaseStrategy;

use crate::text::{ends_with, has_suffix, split_char, split_on, to_string, views};

verus! {

/// The directory the bundler's configuration lives in, inside a configuration directory.
pub const CONFIG_DIR: &'static str = "cribo";

/// The name of the bundler's configuration file.
pub const CONFIG_FILE: &'static str = "cribo.toml";

/// `dir` with the relative component `name` appended, as `PathBuf::push`
/// writes it: a `/` in between unless `dir` is empty or already ends with one.
pub open spec fn pushed_path(dir: Seq<char>, name: Seq<char>) -> Seq<char> {
    if dir.len() == 0 || has_suffix(dir, "/"@) {
        dir + name
    } else {
        dir + "/"@ + name
    }
}

/// Appends the relative component `name` to the path `dir`.
pub fn push_path(dir: String, name: &str) -> (r: String)
    ensures
        r@ == pushed_path(dir@, name@),
{
    proof {
        reveal_strlit("/");
    }
    let mut r = dir;
    if r.unicode_len() > 0 && !ends_with(r.as_str(), "/") {
        r.append("/");
    }
    r.append(name);
    r
}

/// `etcetera::choose_base_strategy` followed by `BaseStrategy::config_dir`:
/// the user's configuration directory (from `XDG_CONFIG_HOME` or the home
/// directory on Linux and macOS, the roaming application data directory on
/// Windows), or none when the home directory cannot be found. The answer
/// depends on the environment, so no clause states it.
#[verifier::external_body]
pub fn user_config_dir() -> (r: Option<String>) {
    match etcetera::choose_base_strategy() {
        Ok(dirs) => Some(dirs.config_dir().to_string_lossy().into_owned()),
        Err(_) => None,
    }
}

/// The bundler's directory inside the configuration directory `config_dir`,
/// when there is one.
pub fn cribo_config_dir_in(config_dir: Option<String>) -> (r: Option<String>)
    ensures
        match config_dir {
            Some(d) => r matches Some(p) && p@ == pushed_path(d@, "cribo"@),
            None => r is None,
        },
{
    proof {
        reveal_strlit("cribo");
    }
    match config_dir {
        Some(path) => Some(push_path(path, CONFIG_DIR)),
        None => None,
    }
}

/// The bundler's directory inside the user's configuration directory, if
/// that can be found (see `cribo_config_dir_in`).
pub fn user_cribo_config_dir() -> (r: Option<String>)
    ensures
        r matches Some(p) ==> exists|d: Seq<char>| p@ == pushed_path(d, "cribo"@),
{
    cribo_config_dir_in(user_config_dir())
}

/// The directories that `XDG_CONFIG_DIRS` (given as `value`) lists: `/etc/xdg`
/// when it is unset or empty, else its `:`-separated entries up to the first
/// empty one.
pub open spec fn xdg_config_dirs(value: Option<Seq<char>>) -> Seq<Seq<char>> {
    let dirs = match value {
        Some(v) => if v.len() > 0 {
            v
        } else {
            "/etc/xdg"@
        },
        None => "/etc/xdg"@,
    };
    leading_nonempty(split_on(dirs, ':'))
}

/// The entries of `s` before its first empty one.
pub open spec fn leading_nonempty(s: Seq<Seq<char>>) -> Seq<Seq<char>>
    decreases s.len(),
{
    if s.len() == 0 || s[0].len() == 0 {
        Seq::empty()
    } else {
        seq![s[0]] + leading_nonempty(s.drop_first())
    }
}

/// The configuration file inside the bundler's directory of `dir`.
pub open spec fn config_file_in(dir: Seq<char>) -> Seq<char> {
    pushed_path(pushed_path(dir, "cribo"@), "cribo.toml"@)
}

/// The system configuration files to look for, in order: `cribo/cribo.toml`
/// inside each directory `XDG_CONFIG_DIRS` (given as `value`) lists. The
/// first of them that is a file is the system configuration file.
pub fn xdg_config_candidates(value: Option<&str>) -> (r: Vec<String>)
    ensures
        views(r@) == xdg_config_dirs(
            match value {
                Some(v) => Some(v@),
                None => None,
            },
        ).map_values(|d: Seq<char>| config_file_in(d)),
{
    let default = "/etc/xdg";
    let config_dirs = match value {
        Some(v) => if v.unicode_len() > 0 {
            v
        } else {
            default
        },
        None => default,
    };
    let dirs = split_char(config_dirs, ':');
    let ghost all = views(dirs@);
    let mut r: Vec<String> = Vec::new();
    let mut i: usize = 0;
    proof {
        reveal_strlit("cribo");
        reveal_strlit("cribo.toml");
        assert(all.skip(0) =~= all);
        assert(leading_nonempty(all) =~= Seq::<Seq<char>>::empty() + leading_nonempty(all.skip(0)));
    }
    while i < dirs.len() && dirs[i].unicode_len() > 0
        invariant
            i <= dirs.len(),
            all == views(dirs@),
            leading_nonempty(all) == all.subrange(0, i as int) + leading_nonempty(all.skip(i as int)),
            forall|j: int| 0 <= j < i ==> all[j].len() > 0,
            views(r@) == all.subrange(0, i as int).map_values(|d: Seq<char>| config_file_in(d)),
        decreases dirs.len() - i,
    {
        let dir = to_string(dirs[i].as_str());
        let with_dir = push_path(dir, CONFIG_DIR);
        let file = push_path(with_dir, CONFIG_FILE);
        let ghost before = views(r@);
        r.push(file);
        proof {
            let t = all.skip(i as int);
            assert(t[0] == all[i as int]);
            assert(t.drop_first() =~= all.skip(i + 1));
            assert(all.subrange(0, i + 1) =~= all.subrange(0, i as int).push(all[i as int]));
            assert(all.subrange(0, i as int) + (seq![all[i as int]] + leading_nonempty(
                all.skip(i + 1),
            )) =~= all.subrange(0, i + 1) + leading_nonempty(all.skip(i + 1)));
            assert(views(r@) =~= before.push(config_file_in(all[i as int])));
            assert(all.subrange(0, i + 1).map_values(|d: Seq<char>| config_file_in(d)) =~= all.subrange(
                0,
                i as int,
            ).map_values(|d: Seq<char>| config_file_in(d)).push(config_file_in(all[i as int])));
        }
        i += 1;
    }
    proof {
        let t = all.skip(i as int);
        if i < dirs.len() {
            assert(t[0] == all[i as int]);
        }
        assert(leading_nonempty(t) =~= Seq::<Seq<char>>::empty());
        assert(leading_nonempty(all) =~= all.subrange(0, i as int));
        reveal_strlit("/etc/xdg");
    }
    r
}

} // verus!
