//! File-system paths as strings, joined the way `PathBuf::push` joins them
//! on Unix, and the directory layout of the shell (configuration, data,
//! plugins, themes, cache).
use vstd::prelude::*;
use crate::text::{owned, push_str};

verus! {

/// `base.join(part)` on Unix: an absolute `part` replaces `base`; otherwise
/// `part` is appended after a `/`, unless `base` is empty or already ends
/// with one.
pub open spec fn join_path(base: Seq<char>, part: Seq<char>) -> Seq<char> {
    if part.len() > 0 && part[0] == '/' {
        part
    } else if base.len() == 0 || base.last() == '/' {
        base + part
    } else {
        base + seq!['/'] + part
    }
}

/// Joins `part` onto `base`.
pub fn join(base: &str, part: &str) -> (r: String)
    ensures
        r@ == join_path(base@, part@),
{
    let pn = part.unicode_len();
    if pn > 0 && part.get_char(0) == '/' {
        return owned(part);
    }
    let mut r = owned(base);
    let bn = base.unicode_len();
    if bn > 0 && base.get_char(bn - 1) != '/' {
        crate::text::push_char(&mut r, '/');
    }
    push_str(&mut r, part);
    r
}

/// `xdg.or(home).unwrap_or(".").join("ut")`: the configuration directory.
pub open spec fn ut_dir_spec(xdg: Option<Seq<char>>, home: Option<Seq<char>>) -> Seq<char> {
    let base = match xdg {
        Some(x) => x,
        None => match home {
            Some(h) => h,
            None => "."@,
        },
    };
    join_path(base, "ut"@)
}

/// The cache directory: `$XDG_CACHE_HOME/ut`, else `$HOME/.cache/ut`,
/// else `./ut`.
pub open spec fn cache_dir_spec(xdg: Option<Seq<char>>, home: Option<Seq<char>>) -> Seq<char> {
    let base = match xdg {
        Some(x) => x,
        None => match home {
            Some(h) => join_path(h, ".cache"@),
            None => "."@,
        },
    };
    join_path(base, "ut"@)
}

/// The data directory: `$XDG_DATA_HOME/utsh`, else `$HOME/.local/share/utsh`,
/// else `./utsh`.
pub open spec fn data_dir_spec(xdg: Option<Seq<char>>, home: Option<Seq<char>>) -> Seq<char> {
    let base = match xdg {
        Some(x) => x,
        None => match home {
            Some(h) => join_path(join_path(h, ".local"@), "share"@),
            None => "."@,
        },
    };
    join_path(base, "utsh"@)
}

/// The view of an optional string.
pub open spec fn opt_view(o: Option<String>) -> Option<Seq<char>> {
    match o {
        Some(s) => Some(s@),
        None => None,
    }
}

/// The configuration directory, from `$XDG_CONFIG_HOME` and `$HOME`.
pub fn config_dir_from(xdg: Option<String>, home: Option<String>) -> (r: String)
    ensures
        r@ == ut_dir_spec(opt_view(xdg), opt_view(home)),
{
    let base = match xdg {
        Some(x) => x,
        None => match home {
            Some(h) => h,
            None => ".".to_owned(),
        },
    };
    join(base.as_str(), "ut")
}

/// The cache directory, from `$XDG_CACHE_HOME` and `$HOME`.
pub fn cache_dir_from(xdg: Option<String>, home: Option<String>) -> (r: String)
    ensures
        r@ == cache_dir_spec(opt_view(xdg), opt_view(home)),
{
    let base = match xdg {
        Some(x) => x,
        None => match home {
            Some(h) => join(h.as_str(), ".cache"),
            None => ".".to_owned(),
        },
    };
    join(base.as_str(), "ut")
}

/// The data directory, from `$XDG_DATA_HOME` and `$HOME`.
pub fn data_dir_from(xdg: Option<String>, home: Option<String>) -> (r: String)
    ensures
        r@ == data_dir_spec(opt_view(xdg), opt_view(home)),
{
    let base = match xdg {
        Some(x) => x,
        None => match home {
            Some(h) => {
                let l = join(h.as_str(), ".local");
                join(l.as_str(), "share")
            },
            None => ".".to_owned(),
        },
    };
    join(base.as_str(), "utsh")
}

/// The configuration file inside the configuration directory.
pub fn config_file_in(config_dir: &str) -> (r: String)
    ensures
        r@ == join_path(config_dir@, "utsh.toml"@),
{
    join(config_dir, "utsh.toml")
}

/// The plugins directory inside the data directory.
pub fn plugins_dir_in(data_dir: &str) -> (r: String)
    ensures
        r@ == join_path(data_dir@, "plugins"@),
{
    join(data_dir, "plugins")
}

/// The themes directory inside the data directory.
pub fn themes_dir_in(data_dir: &str) -> (r: String)
    ensures
        r@ == join_path(data_dir@, "themes"@),
{
    join(data_dir, "themes")
}

/// The history file inside the data directory.
pub fn history_file_in(data_dir: &str) -> (r: String)
    ensures
        r@ == join_path(data_dir@, "history"@),
{
    join(data_dir, "history")
}

/// The socket path: `$UTSH_SOCK`, else `/tmp/utsh.sock`.
pub fn socket_path_from(utsh_sock: Option<String>) -> (r: String)
    ensures
        r@ == (match opt_view(utsh_sock) {
            Some(s) => s,
            None => "/tmp/utsh.sock"@,
        }),
{
    match utsh_sock {
        Some(s) => s,
        None => "/tmp/utsh.sock".to_owned(),
    }
}

} // verus!
