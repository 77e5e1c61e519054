//! The command-line interface: the command tree of `utsh`, and the
//! decisions of its management subcommands (log level, plugin sources,
//! market browsing, themes).  Argument parsing and output are left to the
//! caller.
use vstd::prelude::*;
use crate::paths::join_path;
use crate::plugins::{official, official_catalog, official_index, OfficialPlugin};
use crate::sort::{sort_strings, sorted_strings, strings_view};
use crate::text::{chars_eq_str, chars_of, contains_char, owned, push_str};
use crate::zle::key::{ascii_lower, to_ascii_lowercase};

verus! {

/// `utsh`: the global options and the subcommand (none: start a shell).
#[derive(Debug)]
pub struct Cli {
    /// Configuration file (default `~/.config/ut/utsh.toml`).
    pub config: Option<String>,
    /// Verbosity (`-v` repeated).
    pub verbose: u8,
    /// Subcommand.
    pub command: Option<Command>,
}

/// Top-level subcommands.
#[derive(Debug)]
pub enum Command {
    /// Plugin management.
    Plugin(PluginAction),
    /// Theme management.
    Theme(ThemeAction),
    /// Alias management.
    Alias(AliasAction),
    /// Show the state (plugins, theme, configuration path).
    Status,
    /// Diagnose the environment.
    Doctor,
    /// Start the web interface.
    Webui,
    /// Start an interactive shell.
    Shell {
        /// Run this command and exit.
        command: Option<String>,
        /// Script file, run line by line.
        file: Option<String>,
    },
}

/// `utsh plugin`.
#[derive(Debug)]
pub enum PluginAction {
    /// List installed plugins.
    List,
    /// Browse the official market.
    Browse {
        /// Only this category.
        category: Option<String>,
    },
    /// Install a plugin (and enable it).
    Install {
        /// Official name, `user/repo` or directory name.
        name: String,
        /// Git URL or `user/repo` (empty: resolve the name).
        source: String,
    },
    /// Uninstall a plugin.
    Uninstall {
        name: String,
    },
    /// Enable a plugin.
    Enable {
        name: String,
    },
    /// Disable a plugin.
    Disable {
        name: String,
    },
    /// Update one plugin, or all.
    Update {
        name: Option<String>,
    },
}

/// `utsh theme`.
#[derive(Debug)]
pub enum ThemeAction {
    /// List the available themes.
    List,
    /// Set the theme (`utsh theme set`).
    Select {
        name: String,
    },
    /// Preview a theme (without saving).
    Preview {
        name: String,
    },
}

/// `utsh alias`.
#[derive(Debug)]
pub enum AliasAction {
    /// Add an alias.
    Add {
        /// Alias name.
        name: String,
        /// The command it stands for.
        command: String,
    },
    /// Remove an alias.
    Remove {
        name: String,
    },
    /// List the aliases.
    List,
}

/// The default log filter for a verbosity: `warn`, `info`, `debug`, then
/// `trace`.
pub open spec fn log_level_spec(verbose: u8) -> Seq<char> {
    if verbose == 0 {
        "warn"@
    } else if verbose == 1 {
        "info"@
    } else if verbose == 2 {
        "debug"@
    } else {
        "trace"@
    }
}

/// The default log filter for `-v` repeated `verbose` times.
pub fn log_level(verbose: u8) -> (r: &'static str)
    ensures
        r@ == log_level_spec(verbose),
{
    match verbose {
        0 => "warn",
        1 => "info",
        2 => "debug",
        _ => "trace",
    }
}

/// The plugins loaded by default (with `enable_defaults`).
pub open spec fn builtin_plugins() -> Seq<Seq<char>> {
    seq!["zsh-syntax-highlighting"@, "zsh-autosuggestions"@]
}

/// Whether `name` is a built-in plugin.
pub fn is_builtin_plugin(name: &str) -> (r: bool)
    ensures
        r == builtin_plugins().contains(name@),
{
    let c = chars_of(name);
    let r = chars_eq_str(c.as_slice(), "zsh-syntax-highlighting") || chars_eq_str(
        c.as_slice(),
        "zsh-autosuggestions",
    );
    proof {
        let b = builtin_plugins();
        if r {
            if name@ == "zsh-syntax-highlighting"@ {
                assert(b[0] == name@);
            } else {
                assert(b[1] == name@);
            }
        } else {
            assert forall|i: int| 0 <= i < b.len() implies b[i] != name@ by {}
        }
    }
    r
}

/// `str::eq_ignore_ascii_case` on views.
pub open spec fn eq_ignore_ascii_case(a: Seq<char>, b: Seq<char>) -> bool {
    a.len() == b.len() && forall|i: int| 0 <= i < a.len() ==> ascii_lower(#[trigger] a[i]) == ascii_lower(b[i])
}

/// Whether two strings are equal up to ASCII case.
pub fn same_ignoring_ascii_case(a: &str, b: &str) -> (r: bool)
    ensures
        r == eq_ignore_ascii_case(a@, b@),
{
    let ac = chars_of(a);
    let bc = chars_of(b);
    if ac.len() != bc.len() {
        return false;
    }
    let mut i: usize = 0;
    while i < ac.len()
        invariant
            i <= ac@.len() == bc@.len(),
            ac@ == a@,
            bc@ == b@,
            forall|j: int| 0 <= j < i ==> ascii_lower(#[trigger] a@[j]) == ascii_lower(b@[j]),
        decreases ac@.len() - i,
    {
        if to_ascii_lowercase(ac[i]) != to_ascii_lowercase(bc[i]) {
            return false;
        }
        i = i + 1;
    }
    true
}

/// The market entries shown by `utsh plugin browse`: all of them, or those
/// of one category (compared without ASCII case).
pub open spec fn browse_filter(p: OfficialPlugin, category: Option<Seq<char>>) -> bool {
    match category {
        Some(c) => eq_ignore_ascii_case(c, p.category@),
        None => true,
    }
}

/// The entries of one category (or all, for `None`).
pub open spec fn in_category(cat: Option<Seq<char>>) -> spec_fn(OfficialPlugin) -> bool {
    |p: OfficialPlugin| browse_filter(p, cat)
}

/// The view of an optional string slice.
pub open spec fn opt_str_view(o: Option<&str>) -> Option<Seq<char>> {
    match o {
        Some(c) => Some(c@),
        None => None,
    }
}

/// The market entries to list, in market order.
pub fn browse_entries(category: Option<&str>) -> (r: Vec<OfficialPlugin>)
    ensures
        r@ == official_catalog().filter(in_category(opt_str_view(category))),
{
    let all = crate::plugins::official_plugins();
    let ghost cat = opt_str_view(category);
    let ghost pred = in_category(cat);
    let mut out: Vec<OfficialPlugin> = Vec::new();
    let mut i: usize = 0;
    assert(all@.take(0) =~= Seq::<OfficialPlugin>::empty());
    while i < all.len()
        invariant
            i <= all@.len(),
            all@ == official_catalog(),
            cat == opt_str_view(category),
            pred == in_category(cat),
            out@ == all@.take(i as int).filter(pred),
        decreases all@.len() - i,
    {
        let p = all[i];
        let keep = match category {
            Some(c) => same_ignoring_ascii_case(c, p.category),
            None => true,
        };
        proof {
            reveal(Seq::filter);
            let t = all@.take(i + 1);
            assert(t.drop_last() =~= all@.take(i as int));
            assert(t.last() == p);
        }
        if keep {
            out.push(p);
        }
        i = i + 1;
    }
    assert(all@.take(i as int) =~= all@);
    out
}

/// The source an installation uses when `--source` is empty: the name
/// itself when it is an official plugin, `user/repo` or a URL; otherwise
/// there is none.  A given source is used as it is.
pub open spec fn effective_source_spec(name: Seq<char>, source: Seq<char>) -> Option<Seq<char>> {
    if source.len() > 0 {
        Some(source)
    } else if official_index(name) is Some || name.contains('/') || exists|i: int|
        0 <= i && i + 3 <= name.len() && #[trigger] name.subrange(i, i + 3) == seq![':', '/', '/'] {
        Some(name)
    } else {
        None
    }
}

/// The message when no source can be found for a plugin.
pub open spec fn unknown_plugin_message(name: Seq<char>) -> Seq<char> {
    "unknown plugin `"@ + name + "`: pass a git URL or user/repo via --source"@
}

/// The source to install `name` from.
pub fn effective_source(name: &str, source: &str) -> (r: Result<String, String>)
    ensures
        match effective_source_spec(name@, source@) {
            Some(s) => r matches Ok(t) && t@ == s,
            None => r matches Err(m) && m@ == unknown_plugin_message(name@),
        },
{
    if source.unicode_len() > 0 {
        return Ok(owned(source));
    }
    let found = official(name);
    proof {
        match found {
            Some(p) => {
                let i = choose|i: int|
                    0 <= i < official_catalog().len() && official_catalog()[i] == p && p.name@
                        == name@ && forall|j: int|
                        0 <= j < i ==> (#[trigger] official_catalog()[j]).name@ != name@;
                assert(official_index(name@) is Some);
            },
            None => {
                assert(official_index(name@) is None);
            },
        }
    }
    let nc = chars_of(name);
    if found.is_some() || contains_char(nc.as_slice(), '/') || crate::plugins::has_scheme_separator(
        nc.as_slice(),
    ) {
        Ok(owned(name))
    } else {
        let mut m = owned("unknown plugin `");
        push_str(&mut m, name);
        push_str(&mut m, "`: pass a git URL or user/repo via --source");
        Err(m)
    }
}

/// The preview stylesheet of a theme: `<themes dir>/<name>/<name>.css`.
pub fn theme_css_path(themes_dir: &str, name: &str) -> (r: String)
    ensures
        r@ == join_path(join_path(themes_dir@, name@), name@ + ".css"@),
{
    let d = crate::paths::join(themes_dir, name);
    let mut f = owned(name);
    push_str(&mut f, ".css");
    crate::paths::join(d.as_str(), f.as_str())
}

/// The themes to list: `none` and the installed theme directories, in
/// code-point order.
pub fn theme_list(installed: Vec<String>) -> (r: Vec<String>)
    ensures
        sorted_strings(strings_view(r@)),
        strings_view(r@).to_multiset() == strings_view(installed@).push("none"@).to_multiset(),
{
    let mut all = installed;
    let ghost before = strings_view(all@);
    all.push(owned("none"));
    assert(strings_view(all@) =~= before.push("none"@));
    sort_strings(all)
}


/// Where the web interface's backend is looked for, in order:
/// `$UTSH_WEBUI_DIR`, the source tree, `$XDG_DATA_HOME/utsh/webui/backend`,
/// `~/.local/share/utsh/webui/backend`, then the system locations.
pub open spec fn webui_candidates_spec(
    env_dir: Option<Seq<char>>,
    dev_dir: Seq<char>,
    xdg: Option<Seq<char>>,
    home: Option<Seq<char>>,
) -> Seq<Seq<char>> {
    let a = match env_dir {
        Some(d) => seq![d],
        None => Seq::empty(),
    };
    let b = a.push(dev_dir);
    let c = match xdg {
        Some(x) => b.push(join_path(join_path(x, "utsh"@), "webui/backend"@)),
        None => b,
    };
    let d = match home {
        Some(h) => c.push(join_path(h, ".local/share/utsh/webui/backend"@)),
        None => c,
    };
    d.push("/usr/share/utsh/webui/backend"@).push("/usr/local/share/utsh/webui/backend"@)
}

/// The directories to look for the web interface's backend in, in order.
pub fn webui_candidates(
    env_dir: Option<String>,
    dev_dir: String,
    xdg: Option<String>,
    home: Option<String>,
) -> (r: Vec<String>)
    ensures
        strings_view(r@) == webui_candidates_spec(
            crate::paths::opt_view(env_dir),
            dev_dir@,
            crate::paths::opt_view(xdg),
            crate::paths::opt_view(home),
        ),
{
    let mut out: Vec<String> = Vec::new();
    let ghost mut v: Seq<Seq<char>> = Seq::empty();
    match env_dir {
        Some(d) => {
            proof {
                v = v.push(d@);
            }
            out.push(d);
        },
        None => {},
    }
    assert(strings_view(out@) =~= v);
    proof {
        v = v.push(dev_dir@);
    }
    out.push(dev_dir);
    assert(strings_view(out@) =~= v);
    match xdg {
        Some(x) => {
            let u = crate::paths::join(x.as_str(), "utsh");
            let w = crate::paths::join(u.as_str(), "webui/backend");
            proof {
                v = v.push(w@);
            }
            out.push(w);
        },
        None => {},
    }
    assert(strings_view(out@) =~= v);
    match home {
        Some(h) => {
            let w = crate::paths::join(h.as_str(), ".local/share/utsh/webui/backend");
            proof {
                v = v.push(w@);
            }
            out.push(w);
        },
        None => {},
    }
    assert(strings_view(out@) =~= v);
    out.push(owned("/usr/share/utsh/webui/backend"));
    out.push(owned("/usr/local/share/utsh/webui/backend"));
    proof {
        v = v.push("/usr/share/utsh/webui/backend"@).push("/usr/local/share/utsh/webui/backend"@);
    }
    assert(strings_view(out@) =~= v);
    out
}


/// The rows of `utsh plugin list`: the built-in plugins with whether each
/// is installed (only when the built-ins are enabled), then the installed
/// plugins with whether each is enabled.
pub fn plugin_list_rows(config: &crate::config::Config, installed: &Vec<String>) -> (r: (
    Vec<(String, bool)>,
    Vec<(String, bool)>,
))
    ensures
        config.plugins.enable_defaults ==> r.0@.len() == builtin_plugins().len() && forall|i: int|
            0 <= i < r.0@.len() ==> (#[trigger] r.0@[i]).0@ == builtin_plugins()[i] && r.0@[i].1
                == strings_view(installed@).contains(builtin_plugins()[i]),
        !config.plugins.enable_defaults ==> r.0@.len() == 0,
        r.1@.len() == installed@.len(),
        forall|i: int|
            0 <= i < r.1@.len() ==> (#[trigger] r.1@[i]).0@ == installed@[i]@ && r.1@[i].1
                == crate::config::enabled_contains(config.plugins.enabled@, installed@[i]@),
{
    let mut builtin: Vec<(String, bool)> = Vec::new();
    if config.plugins.enable_defaults {
        let names = ["zsh-syntax-highlighting", "zsh-autosuggestions"];
        let mut k: usize = 0;
        while k < 2
            invariant
                k <= 2,
                builtin@.len() == k,
                names@ =~= seq!["zsh-syntax-highlighting", "zsh-autosuggestions"],
                forall|i: int|
                    0 <= i < k ==> (#[trigger] builtin@[i]).0@ == builtin_plugins()[i] && builtin@[i].1
                        == strings_view(installed@).contains(builtin_plugins()[i]),
            decreases 2 - k,
        {
            let name = names[k];
            let found = contains_string(installed, name);
            builtin.push((owned(name), found));
            k = k + 1;
        }
    }
    let mut rows: Vec<(String, bool)> = Vec::new();
    let mut i: usize = 0;
    while i < installed.len()
        invariant
            i <= installed@.len(),
            rows@.len() == i,
            forall|j: int|
                0 <= j < i ==> (#[trigger] rows@[j]).0@ == installed@[j]@ && rows@[j].1
                    == crate::config::enabled_contains(config.plugins.enabled@, installed@[j]@),
        decreases installed@.len() - i,
    {
        let n = installed[i].as_str();
        let on = config.is_plugin_enabled(n);
        rows.push((owned(n), on));
        i = i + 1;
    }
    (builtin, rows)
}

/// Whether `v` holds the string `s`.
fn contains_string(v: &Vec<String>, s: &str) -> (r: bool)
    ensures
        r == strings_view(v@).contains(s@),
{
    let mut i: usize = 0;
    while i < v.len()
        invariant
            i <= v@.len(),
            forall|j: int| 0 <= j < i ==> (#[trigger] v@[j])@ != s@,
        decreases v@.len() - i,
    {
        if chars_eq_str(chars_of(v[i].as_str()).as_slice(), s) {
            assert(strings_view(v@)[i as int] == s@);
            return true;
        }
        i = i + 1;
    }
    assert forall|j: int| 0 <= j < strings_view(v@).len() implies strings_view(v@)[j] != s@ by {
        assert(v@[j]@ != s@);
    }
    false
}

} // verus!
