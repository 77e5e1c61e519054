//! Plugins: the official catalogue, source resolution, name checks, the
//! plugin manifest, and the decisions of installing, looking up and
//! ordering plugins.  Cloning repositories and touching the plugin
//! directories is left to the caller, which hands back what it found.
use vstd::prelude::*;
use crate::alias::valid_name;
use crate::paths::join_path;
use crate::sort::{lemma_insert_sorted, sort_strings, sorted_strings, strings_view};
use vstd::seq_lib::{to_multiset_build, to_multiset_insert};
use crate::text::{
    chars_eq, chars_eq_str, chars_of, contains_char, has_prefix, lex_le, lex_lt, owned, push_str,
    starts_with,
};

verus! {

/// `toml::de::Error`, carried through as it is.
#[verifier::external_type_specification]
#[verifier::external_body]
pub struct ExTomlDeError(toml::de::Error);

/// `toml::ser::Error`, carried through as it is.
#[verifier::external_type_specification]
#[verifier::external_body]
pub struct ExTomlSerError(toml::ser::Error);

/// Plugin errors.
pub enum PluginError {
    /// The plugin directory could not be read or written.
    Io(std::io::Error),
    /// A git command failed.
    Git(String),
    /// A plugin of that name is installed already.
    AlreadyInstalled(String),
    /// No plugin of that name is installed.
    NotFound(String),
    /// The plugin name is not valid.
    InvalidName(String),
    /// The source is neither an official name, `user/repo` nor a git URL.
    UnknownSource(String),
    /// The manifest file could not be parsed.
    ManifestParse(toml::de::Error),
    /// The manifest could not be serialised.
    ManifestSerialize(toml::ser::Error),
}

/// The message of an error, as the shell prints it.
pub fn plugin_error_message(e: &PluginError) -> (r: Option<String>)
    ensures
        match e {
            PluginError::AlreadyInstalled(n) => r matches Some(m) && m@ == "plugin `"@ + n@
                + "` is already installed"@,
            PluginError::NotFound(n) => r matches Some(m) && m@ == "plugin `"@ + n@
                + "` is not installed"@,
            PluginError::InvalidName(n) => r matches Some(m) && m@ == "invalid plugin name `"@
                + n@ + "`"@,
            PluginError::UnknownSource(s) => r matches Some(m) && m@ == "unknown plugin source `"@
                + s@ + "` (expected user/repo, git URL, or official name)"@,
            PluginError::Git(s) => r matches Some(m) && m@ == "git error: "@ + s@,
            _ => r is None,
        },
{
    let (head, name, tail) = match e {
        PluginError::AlreadyInstalled(n) => ("plugin `", n, "` is already installed"),
        PluginError::NotFound(n) => ("plugin `", n, "` is not installed"),
        PluginError::InvalidName(n) => ("invalid plugin name `", n, "`"),
        PluginError::UnknownSource(s) => (
            "unknown plugin source `",
            s,
            "` (expected user/repo, git URL, or official name)",
        ),
        PluginError::Git(s) => ("git error: ", s, ""),
        _ => {
            return None;
        },
    };
    let mut m = owned(head);
    push_str(&mut m, name.as_str());
    push_str(&mut m, tail);
    proof {
        reveal_strlit("");
    }
    assert(m@ =~= head@ + name@ + tail@);
    Some(m)
}

/// The plugin manifest (`plugin.toml`).
#[derive(Debug, Clone, PartialEq, Eq)]
pub struct PluginManifest {
    /// Plugin name.
    pub name: String,
    /// Version.
    pub version: String,
    /// Description.
    pub description: String,
    /// Source (`user/repo` or a full URL).
    pub source: String,
    /// The commit the plugin is pinned to.
    pub commit: String,
    /// Names of the plugins it depends on.
    pub depends: Vec<String>,
    /// Initialisation scripts, relative to the plugin directory.
    pub init_files: Vec<String>,
}

impl Default for PluginManifest {
    /// Empty fields, version `0.0.0`.
    fn default() -> (m: PluginManifest)
        ensures
            m.name@ == Seq::<char>::empty(),
            m.version@ == "0.0.0"@,
            m.description@ == Seq::<char>::empty(),
            m.source@ == Seq::<char>::empty(),
            m.commit@ == Seq::<char>::empty(),
            m.depends@ == Seq::<String>::empty(),
            m.init_files@ == Seq::<String>::empty(),
    {
        PluginManifest {
            name: String::new(),
            version: "0.0.0".to_owned(),
            description: String::new(),
            source: String::new(),
            commit: String::new(),
            depends: Vec::new(),
            init_files: Vec::new(),
        }
    }
}

impl PluginManifest {
    /// The manifest of a plugin directory that carries none: the directory
    /// name and the default fields.
    pub fn for_dir_name(name: String) -> (m: PluginManifest)
        ensures
            m.name@ == name@,
            m.version@ == "0.0.0"@,
            m.description@ == Seq::<char>::empty(),
            m.source@ == Seq::<char>::empty(),
            m.commit@ == Seq::<char>::empty(),
            m.depends@ == Seq::<String>::empty(),
            m.init_files@ == Seq::<String>::empty(),
    {
        let mut m = PluginManifest::default();
        m.name = name;
        m
    }
}

/// A read-only view of an installed plugin.
#[derive(Debug, Clone)]
pub struct PluginInfo {
    /// Plugin name.
    pub name: String,
    /// Whether it is enabled (decided by the configuration).
    pub enabled: bool,
    /// Installation directory.
    pub path: String,
    /// Metadata.
    pub manifest: PluginManifest,
}

/// An entry of the official plugin market.
#[derive(Debug, Clone, Copy)]
pub struct OfficialPlugin {
    /// Plugin name.
    pub name: &'static str,
    /// GitHub repository (`owner/repo`).
    pub repo: &'static str,
    /// Category: `syntax`, `completion`, `history`, `prompt` or `utility`.
    pub category: &'static str,
    /// One-line description.
    pub description: &'static str,
}

/// The official plugin market, browsable offline.
pub open spec fn official_catalog() -> Seq<OfficialPlugin> {
    seq![
        OfficialPlugin {
            name: "zsh-syntax-highlighting",
            repo: "zsh-users/zsh-syntax-highlighting",
            category: "syntax",
            description: "Fish shell 风格的命令语法高亮",
        },
        OfficialPlugin {
            name: "zsh-autosuggestions",
            repo: "zsh-users/zsh-autosuggestions",
            category: "completion",
            description: "根据历史记录给出灰色自动补全建议",
        },
        OfficialPlugin {
            name: "zsh-completions",
            repo: "zsh-users/zsh-completions",
            category: "completion",
            description: "大量额外补全定义（Zsh 官方补充仓库）",
        },
        OfficialPlugin {
            name: "zsh-history-substring-search",
            repo: "zsh-users/zsh-history-substring-search",
            category: "history",
            description: "输入子串即可搜索历史（上下方向键）",
        },
        OfficialPlugin {
            name: "fast-syntax-highlighting",
            repo: "zdharma-continuum/fast-syntax-highlighting",
            category: "syntax",
            description: "高性能语法高亮（F-Sy-H）",
        },
    ]
}

/// The entries of the official plugin market.
pub fn official_plugins() -> (r: Vec<OfficialPlugin>)
    ensures
        r@ == official_catalog(),
{
    let r = vec![
        OfficialPlugin {
            name: "zsh-syntax-highlighting",
            repo: "zsh-users/zsh-syntax-highlighting",
            category: "syntax",
            description: "Fish shell 风格的命令语法高亮",
        },
        OfficialPlugin {
            name: "zsh-autosuggestions",
            repo: "zsh-users/zsh-autosuggestions",
            category: "completion",
            description: "根据历史记录给出灰色自动补全建议",
        },
        OfficialPlugin {
            name: "zsh-completions",
            repo: "zsh-users/zsh-completions",
            category: "completion",
            description: "大量额外补全定义（Zsh 官方补充仓库）",
        },
        OfficialPlugin {
            name: "zsh-history-substring-search",
            repo: "zsh-users/zsh-history-substring-search",
            category: "history",
            description: "输入子串即可搜索历史（上下方向键）",
        },
        OfficialPlugin {
            name: "fast-syntax-highlighting",
            repo: "zdharma-continuum/fast-syntax-highlighting",
            category: "syntax",
            description: "高性能语法高亮（F-Sy-H）",
        },
    ];
    assert(r@ =~= official_catalog());
    r
}

/// Index of the first catalogue entry named `name`.
pub open spec fn official_index(name: Seq<char>) -> Option<int> {
    if exists|i: int| 0 <= i < official_catalog().len() && (#[trigger] official_catalog()[i]).name@ == name {
        Some(
            choose|i: int|
                0 <= i < official_catalog().len() && (#[trigger] official_catalog()[i]).name@ == name
                    && forall|j: int| 0 <= j < i ==> (#[trigger] official_catalog()[j]).name@ != name,
        )
    } else {
        None
    }
}

/// Looks a name up in the official market.
pub fn official(name: &str) -> (r: Option<OfficialPlugin>)
    ensures
        match r {
            Some(p) => exists|i: int|
                0 <= i < official_catalog().len() && official_catalog()[i] == p && p.name@ == name@
                    && forall|j: int|
                    0 <= j < i ==> (#[trigger] official_catalog()[j]).name@ != name@,
            None => forall|i: int|
                0 <= i < official_catalog().len() ==> (#[trigger] official_catalog()[i]).name@
                    != name@,
        },
{
    let all = official_plugins();
    let mut i: usize = 0;
    while i < all.len()
        invariant
            i <= all@.len(),
            all@ == official_catalog(),
            forall|j: int| 0 <= j < i ==> (#[trigger] official_catalog()[j]).name@ != name@,
        decreases all@.len() - i,
    {
        let p = all[i];
        if chars_eq_str(chars_of(p.name).as_slice(), name) {
            return Some(p);
        }
        i = i + 1;
    }
    None
}

/// Whether `s` is a full URL (https, http, ssh, or scp-like `git@`).
pub open spec fn is_url(s: Seq<char>) -> bool {
    ||| has_prefix(s, "https://"@)
    ||| has_prefix(s, "http://"@)
    ||| has_prefix(s, "ssh://"@)
    ||| has_prefix(s, "git@"@)
}

/// The clone URL of a source: a full URL as it is, a `user/repo` shorthand
/// as a GitHub URL.
pub open spec fn source_url(source: Seq<char>) -> Seq<char> {
    if is_url(source) {
        source
    } else {
        "https://github.com/"@ + source + ".git"@
    }
}

/// Whether `s` starts with the string `p`.
fn str_starts_with(s: &[char], p: &str) -> (r: bool)
    ensures
        r == has_prefix(s@, p@),
{
    let pc = chars_of(p);
    starts_with(s, pc.as_slice())
}

/// Resolves a `user/repo` shorthand to its GitHub URL; full URLs are
/// returned as they are.
pub fn resolve_source_url(source: &str) -> (r: String)
    ensures
        r@ == source_url(source@),
{
    let sc = chars_of(source);
    if str_starts_with(sc.as_slice(), "https://") || str_starts_with(sc.as_slice(), "http://")
        || str_starts_with(sc.as_slice(), "ssh://") || str_starts_with(sc.as_slice(), "git@") {
        owned(source)
    } else {
        let mut r = owned("https://github.com/");
        push_str(&mut r, source);
        push_str(&mut r, ".git");
        r
    }
}

/// Whether `name` is a valid plugin name (non-empty; letters, digits, `_`,
/// `-`, `.`).
pub fn is_valid_plugin_name(name: &str) -> (r: bool)
    ensures
        r == valid_name(name@),
{
    crate::alias::is_valid_name(name)
}

/// Whether `s` contains `://`.
pub fn has_scheme_separator(s: &[char]) -> (r: bool)
    ensures
        r == exists|i: int| 0 <= i && i + 3 <= s@.len() && #[trigger] s@.subrange(i, i + 3) == seq![':', '/', '/'],
{
    if s.len() < 3 {
        return false;
    }
    let mut i: usize = 0;
    while i <= s.len() - 3
        invariant
            3 <= s@.len(),
            forall|j: int| 0 <= j < i && j + 3 <= s@.len() ==> #[trigger] s@.subrange(j, j + 3) != seq![':', '/', '/'],
        decreases s@.len() - i,
    {
        if s[i] == ':' && s[i + 1] == '/' && s[i + 2] == '/' {
            assert(s@.subrange(i as int, i + 3) =~= seq![':', '/', '/']);
            return true;
        }
        assert(s@.subrange(i as int, i + 3)[0] == s@[i as int]);
        assert(s@.subrange(i as int, i + 3)[1] == s@[i + 1]);
        assert(s@.subrange(i as int, i + 3)[2] == s@[i + 2]);
        i = i + 1;
    }
    false
}

/// Whether a source that is not an official name can be cloned: a
/// `user/repo` shorthand or a URL.
pub open spec fn clonable_source(s: Seq<char>) -> bool {
    ||| s.contains('/')
    ||| exists|i: int| 0 <= i && i + 3 <= s.len() && #[trigger] s.subrange(i, i + 3) == seq![':', '/', '/']
    ||| has_prefix(s, "git@"@)
}

/// The URL an installation clones from: an official name clones the
/// official repository; other sources must be `user/repo` or a URL.
pub open spec fn install_url(source: Seq<char>) -> Option<Seq<char>> {
    match official_index(source) {
        Some(i) => Some(source_url(official_catalog()[i].repo@)),
        None => if clonable_source(source) {
            Some(source_url(source))
        } else {
            None
        },
    }
}

/// The checks before an installation, given whether the destination
/// directory exists already; the URL to clone when they pass.
pub fn plan_install(name: &str, source: &str, dest_exists: bool) -> (r: Result<String, PluginError>)
    ensures
        !valid_name(name@) ==> (r matches Err(PluginError::InvalidName(n)) && n@ == name@),
        valid_name(name@) && dest_exists ==> (r matches Err(PluginError::AlreadyInstalled(n))
            && n@ == name@),
        valid_name(name@) && !dest_exists ==> match install_url(source@) {
            Some(u) => r matches Ok(url) && url@ == u,
            None => r matches Err(PluginError::UnknownSource(s)) && s@ == source@,
        },
{
    if !is_valid_plugin_name(name) {
        return Err(PluginError::InvalidName(owned(name)));
    }
    if dest_exists {
        return Err(PluginError::AlreadyInstalled(owned(name)));
    }
    match official(source) {
        Some(p) => {
            proof {
                let i = choose|i: int|
                    0 <= i < official_catalog().len() && official_catalog()[i] == p && p.name@
                        == source@ && forall|j: int|
                        0 <= j < i ==> (#[trigger] official_catalog()[j]).name@ != source@;
                lemma_official_index(source@, i);
            }
            Ok(resolve_source_url(p.repo))
        },
        None => {
            proof {
                assert(official_index(source@) is None);
            }
            let sc = chars_of(source);
            if contains_char(sc.as_slice(), '/') || has_scheme_separator(sc.as_slice())
                || str_starts_with(sc.as_slice(), "git@") {
                Ok(resolve_source_url(source))
            } else {
                Err(PluginError::UnknownSource(owned(source)))
            }
        },
    }
}

proof fn lemma_official_index(name: Seq<char>, i: int)
    requires
        0 <= i < official_catalog().len(),
        official_catalog()[i].name@ == name,
        forall|j: int| 0 <= j < i ==> (#[trigger] official_catalog()[j]).name@ != name,
    ensures
        official_index(name) == Some(i),
{
    let k = choose|k: int|
        0 <= k < official_catalog().len() && (#[trigger] official_catalog()[k]).name@ == name
            && forall|j: int| 0 <= j < k ==> (#[trigger] official_catalog()[j]).name@ != name;
    if k < i {
        assert(official_catalog()[k].name@ != name);
    } else if k > i {
        assert(official_catalog()[i].name@ != name);
    }
}

/// The manifest recorded after cloning: the one the repository carries (or
/// the default one), named after the plugin when it has no name, with the
/// clone URL and the pinned commit.
pub fn finish_manifest(loaded: PluginManifest, name: &str, url: String, commit: Option<&str>) -> (m:
    PluginManifest)
    ensures
        m.name@ == (if loaded.name@.len() == 0 {
            name@
        } else {
            loaded.name@
        }),
        m.source@ == url@,
        m.commit@ == (match commit {
            Some(c) => c@,
            None => Seq::<char>::empty(),
        }),
        m.version == loaded.version,
        m.description == loaded.description,
        m.depends == loaded.depends,
        m.init_files == loaded.init_files,
{
    let mut m = loaded;
    if m.name.unicode_len() == 0 {
        m.name = owned(name);
    }
    m.source = url;
    m.commit = match commit {
        Some(c) => owned(c),
        None => String::new(),
    };
    m
}

/// The plugin manager.
pub struct PluginManager {
    /// Root of the plugin installations.
    pub plugins_dir: String,
}

impl PluginManager {
    /// The manager of the default directory (`<data dir>/plugins`), from
    /// `$XDG_DATA_HOME` and `$HOME`.
    pub fn default_dir(xdg_data_home: Option<String>, home: Option<String>) -> (pm: PluginManager)
        ensures
            pm.plugins_dir@ == join_path(
                crate::paths::data_dir_spec(
                    crate::paths::opt_view(xdg_data_home),
                    crate::paths::opt_view(home),
                ),
                "plugins"@,
            ),
    {
        let d = crate::paths::data_dir_from(xdg_data_home, home);
        PluginManager { plugins_dir: crate::paths::plugins_dir_in(d.as_str()) }
    }

    /// The manager of a given directory.
    pub fn new(plugins_dir: String) -> (pm: PluginManager)
        ensures
            pm.plugins_dir == plugins_dir,
    {
        PluginManager { plugins_dir }
    }

    /// The directory of a plugin.
    pub fn plugin_path(&self, name: &str) -> (r: String)
        ensures
            r@ == join_path(self.plugins_dir@, name@),
    {
        crate::paths::join(self.plugins_dir.as_str(), name)
    }

    /// The directory to remove when uninstalling `name`; an invalid name is
    /// refused before any path is formed from it.
    pub fn uninstall_target(&self, name: &str) -> (r: Result<String, PluginError>)
        ensures
            !valid_name(name@) ==> (r matches Err(PluginError::InvalidName(n)) && n@ == name@),
            valid_name(name@) ==> (r matches Ok(p) && p@ == join_path(self.plugins_dir@, name@)),
    {
        if !is_valid_plugin_name(name) {
            return Err(PluginError::InvalidName(owned(name)));
        }
        Ok(self.plugin_path(name))
    }

    /// A plugin, given the manifest read from its directory (`None` when
    /// the directory does not exist).
    pub fn get(&self, name: &str, found: Option<PluginManifest>) -> (r: Result<PluginInfo, PluginError>)
        ensures
            match found {
                None => r matches Err(PluginError::NotFound(n)) && n@ == name@,
                Some(m) => r matches Ok(info) && info.name@ == name@ && !info.enabled
                    && info.path@ == join_path(self.plugins_dir@, name@) && info.manifest == m,
            },
    {
        match found {
            None => Err(PluginError::NotFound(owned(name))),
            Some(manifest) => Ok(
                PluginInfo { name: owned(name), enabled: false, path: self.plugin_path(name), manifest },
            ),
        }
    }
}

proof fn lemma_contains_push<A>(s: Seq<A>, x: A, m: A)
    ensures
        s.push(x).contains(m) <==> (s.contains(m) || m == x),
{
    if s.contains(m) {
        let j = choose|j: int| 0 <= j < s.len() && s[j] == m;
        assert(s.push(x)[j] == m);
    }
    if m == x {
        assert(s.push(x)[s.len() as int] == x);
    }
    if s.push(x).contains(m) {
        let j = choose|j: int| 0 <= j < s.push(x).len() && s.push(x)[j] == m;
        if j < s.len() {
            assert(s[j] == m);
        }
    }
}

/// The names of a list of plugins.
pub open spec fn plugin_names(v: Seq<PluginInfo>) -> Seq<Seq<char>> {
    v.map_values(|p: PluginInfo| p.name@)
}

/// Position at which a plugin named `key` goes into the list `r`, ordered
/// by name: after every entry whose name is not greater (which keeps the
/// sort stable).
fn name_insert_position(r: &Vec<PluginInfo>, key: &str) -> (pos: usize)
    ensures
        pos <= r@.len(),
        forall|j: int| 0 <= j < pos ==> !lex_lt(key@, #[trigger] plugin_names(r@)[j]),
        pos < r@.len() ==> lex_lt(key@, plugin_names(r@)[pos as int]),
{
    let k = chars_of(key);
    let mut i: usize = 0;
    while i < r.len()
        invariant
            i <= r@.len(),
            k@ == key@,
            forall|j: int| 0 <= j < i ==> !lex_lt(key@, #[trigger] plugin_names(r@)[j]),
        decreases r@.len() - i,
    {
        let c = chars_of(r[i].name.as_str());
        assert(plugin_names(r@)[i as int] == r@[i as int].name@);
        if crate::text::compare_chars(k.as_slice(), c.as_slice()) == crate::text::Order::Less {
            return i;
        }
        i = i + 1;
    }
    i
}

/// Orders plugins by name (code-point order), keeping the relative order of
/// plugins with equal names.
pub fn sort_plugins(v: Vec<PluginInfo>) -> (r: Vec<PluginInfo>)
    ensures
        sorted_strings(plugin_names(r@)),
        r@.to_multiset() == v@.to_multiset(),
{
    let ghost orig = v@;
    let mut v = v;
    let mut r: Vec<PluginInfo> = Vec::new();
    let ghost mut k: int = 0;
    assert(orig.take(0) =~= r@);
    assert(orig.skip(0) =~= v@);
    while v.len() > 0
        invariant
            0 <= k <= orig.len(),
            v@ == orig.skip(k),
            sorted_strings(plugin_names(r@)),
            r@.to_multiset() == orig.take(k).to_multiset(),
        decreases v@.len(),
    {
        let x = v.remove(0);
        let ghost xv = x;
        assert(xv == orig[k]);
        assert(v@ =~= orig.skip(k + 1));
        let pos = name_insert_position(&r, x.name.as_str());
        let ghost old_r = r@;
        r.insert(pos, x);
        proof {
            assert(r@ =~= old_r.insert(pos as int, xv));
            to_multiset_insert(old_r, pos as int, xv);
            assert(orig.take(k + 1) =~= orig.take(k).push(xv));
            to_multiset_build(orig.take(k), xv);
            assert(plugin_names(r@) =~= plugin_names(old_r).insert(pos as int, xv.name@));
            lemma_insert_sorted(plugin_names(old_r), pos as int, xv.name@);
            k = k + 1;
        }
    }
    assert(orig.take(k) =~= orig);
    r
}

/// Strictly increasing in code-point order.
pub open spec fn strictly_sorted_strings(s: Seq<Seq<char>>) -> bool {
    forall|i: int, j: int| 0 <= i < j < s.len() ==> lex_lt(#[trigger] s[i], #[trigger] s[j])
}

/// The load order of a set of plugins: their names, each once, in
/// code-point order.
pub fn resolve_load_order(manifests: &Vec<(String, PluginManifest)>) -> (r: Vec<String>)
    ensures
        strictly_sorted_strings(strings_view(r@)),
        forall|n: Seq<char>|
            strings_view(r@).contains(n) <==> exists|i: int|
                0 <= i < manifests@.len() && (#[trigger] manifests@[i]).0@ == n,
{
    let mut names: Vec<String> = Vec::new();
    let mut i: usize = 0;
    while i < manifests.len()
        invariant
            i <= manifests@.len(),
            names@.len() == i,
            forall|k: int| 0 <= k < i ==> (#[trigger] names@[k])@ == manifests@[k].0@,
        decreases manifests@.len() - i,
    {
        names.push(manifests[i].0.clone());
        i = i + 1;
    }
    let sorted = sort_strings(names);
    let ghost sv = strings_view(sorted@);
    let ghost nv = strings_view(names@);
    let mut out: Vec<String> = Vec::new();
    let mut k: usize = 0;
    while k < sorted.len()
        invariant
            k <= sorted@.len(),
            sv == strings_view(sorted@),
            sorted_strings(sv),
            strictly_sorted_strings(strings_view(out@)),
            out@.len() > 0 ==> k > 0 && strings_view(out@).last() == sv[k - 1],
            forall|n: Seq<char>| strings_view(out@).contains(n) <==> sv.take(k as int).contains(n),
        decreases sorted@.len() - k,
    {
        let x = sorted[k].clone();
        let ghost before = strings_view(out@);
        assert(x@ == sv[k as int]);
        let n = out.len();
        let dup = n > 0 && chars_eq(
            chars_of(out[n - 1].as_str()).as_slice(),
            chars_of(x.as_str()).as_slice(),
        );
        assert(sv.take(k + 1) =~= sv.take(k as int).push(sv[k as int]));
        if dup {
            assert(before.last() == out@[n - 1]@);
            assert(sv.take(k as int)[k - 1] == sv[k - 1]);
            assert(sv.take(k as int).contains(sv[k - 1]));
            assert forall|m: Seq<char>| before.contains(m) <==> sv.take(k + 1).contains(m) by {
                lemma_contains_push(sv.take(k as int), sv[k as int], m);
            }
        } else {
            out.push(x);
            proof {
                assert(strings_view(out@) =~= before.push(x@));
                assert forall|m: Seq<char>| strings_view(out@).contains(m) <==> sv.take(k + 1).contains(m) by {
                    lemma_contains_push(sv.take(k as int), sv[k as int], m);
                    lemma_contains_push(before, x@, m);
                }
                if n > 0 {
                    assert(before.last() == sv[k - 1]);
                    assert(lex_le(sv[k - 1], sv[k as int]));
                    assert forall|a: int, b: int|
                        0 <= a < b < strings_view(out@).len() implies lex_lt(
                        #[trigger] strings_view(out@)[a],
                        #[trigger] strings_view(out@)[b],
                    ) by {
                        if b == n {
                            if a < n - 1 {
                                assert(lex_lt(before[a], before[n - 1]));
                                crate::text::lemma_lex_transitive(before[a], before[n - 1], x@);
                            }
                        } else {
                            assert(strings_view(out@)[a] == before[a]);
                            assert(strings_view(out@)[b] == before[b]);
                        }
                    }
                }
            }
        }
        k = k + 1;
    }
    proof {
        assert(sv.take(sv.len() as int) =~= sv);
        assert forall|n: Seq<char>| strings_view(out@).contains(n) <==> exists|i: int|
            0 <= i < manifests@.len() && (#[trigger] manifests@[i]).0@ == n by {
            vstd::seq_lib::to_multiset_contains(sv, n);
            vstd::seq_lib::to_multiset_contains(nv, n);
            if nv.contains(n) {
                let i = choose|i: int| 0 <= i < nv.len() && nv[i] == n;
                assert(names@[i]@ == manifests@[i].0@);
            }
            if exists|i: int| 0 <= i < manifests@.len() && (#[trigger] manifests@[i]).0@ == n {
                let i = choose|i: int| 0 <= i < manifests@.len() && (#[trigger] manifests@[i]).0@ == n;
                assert(nv[i] == n);
            }
        }
    }
    out
}


/// Resolving a source that is already a resolved URL changes nothing.
pub proof fn lemma_source_url_idempotent(source: Seq<char>)
    ensures
        source_url(source_url(source)) == source_url(source),
{
    reveal_strlit("https://github.com/");
    reveal_strlit("https://");
    reveal_strlit(".git");
    if !is_url(source) {
        let u = "https://github.com/"@ + source + ".git"@;
        assert(u.take(8) =~= "https://"@);
        assert(is_url(u));
    }
}

} // verus!
