//! The configuration of the shell (`utsh.toml`): its sections, their
//! defaults, and the operations on aliases, the theme and enabled plugins.
//! Reading, parsing and writing the file is left to the caller.
use vstd::prelude::*;
use crate::alias::{is_valid_command, is_valid_name, valid_command, valid_name};
use crate::sort::strings_view;
use crate::strmap::StrMap;
use crate::text::{chars_eq_str, chars_of, owned, push_str};

verus! {

/// `toml::Value`, carried through as it is.
#[verifier::external_type_specification]
#[verifier::external_body]
pub struct ExTomlValue(toml::Value);

/// Configuration errors.
pub enum ConfigError {
    /// The file could not be read or written.
    Io(std::io::Error),
    /// The file is not valid TOML for the configuration.
    Parse(toml::de::Error),
    /// The configuration could not be serialised.
    Serialize(toml::ser::Error),
    /// An alias name is not valid.
    InvalidAliasName(String),
    /// An alias command is empty or holds a line break.
    InvalidAliasCommand(String),
}

impl ConfigError {
    /// The message of an alias error, as the shell prints it (`None` for
    /// the errors that carry an outside error).
    pub fn message(&self) -> (r: Option<String>)
        ensures
            match self {
                ConfigError::InvalidAliasName(n) => r matches Some(m) && m@ == "invalid alias name `"@
                    + n@ + "`"@,
                ConfigError::InvalidAliasCommand(n) => r matches Some(m) && m@
                    == "invalid alias command for `"@ + n@
                    + "`: must not be empty or contain newlines"@,
                _ => r is None,
            },
    {
        match self {
            ConfigError::InvalidAliasName(n) => {
                let mut m = owned("invalid alias name `");
                push_str(&mut m, n.as_str());
                push_str(&mut m, "`");
                Some(m)
            },
            ConfigError::InvalidAliasCommand(n) => {
                let mut m = owned("invalid alias command for `");
                push_str(&mut m, n.as_str());
                push_str(&mut m, "`: must not be empty or contain newlines");
                Some(m)
            },
            _ => None,
        }
    }
}

/// Default editor.
pub fn default_editor() -> (r: String)
    ensures
        r@ == "nvim"@,
{
    "nvim".to_owned()
}

/// Default history limit.
pub fn default_history_size() -> (r: usize)
    ensures
        r == 10_000,
{
    10_000
}

/// Whether repeated history lines are ignored by default.
pub fn default_history_ignore_dups() -> (r: bool)
    ensures
        r,
{
    true
}

/// Default prompt format (the built-in simple prompt).
pub fn default_prompt_format() -> (r: String)
    ensures
        r@ == "utsh"@,
{
    "utsh".to_owned()
}

/// Whether the git status is shown by default.
pub fn default_show_git_status() -> (r: bool)
    ensures
        r,
{
    true
}

/// Whether the built-in plugins are loaded by default.
pub fn default_enable_defaults() -> (r: bool)
    ensures
        r,
{
    true
}

/// Default limit on enabled third-party plugins.
pub fn default_max_plugins() -> (r: usize)
    ensures
        r == 50,
{
    50
}

/// Whether the web interface may start by default.
pub fn default_webui_enabled() -> (r: bool)
    ensures
        r,
{
    true
}

/// Default port of the web interface.
pub fn default_webui_port() -> (r: u16)
    ensures
        r == 8787,
{
    8787
}

/// Whether a browser is opened by default.
pub fn default_auto_open() -> (r: bool)
    ensures
        r,
{
    true
}

/// Default theme (none).
pub fn default_theme_current() -> (r: String)
    ensures
        r@ == "none"@,
{
    "none".to_owned()
}

/// `[general]`.
#[derive(Debug, Clone)]
pub struct GeneralConfig {
    /// Default editor.
    pub default_editor: String,
    /// History limit.
    pub history_size: usize,
    /// Whether repeated history lines are ignored.
    pub history_ignore_dups: bool,
}

impl Default for GeneralConfig {
    fn default() -> (c: GeneralConfig)
        ensures
            c.default_editor@ == "nvim"@,
            c.history_size == 10_000,
            c.history_ignore_dups,
    {
        GeneralConfig {
            default_editor: default_editor(),
            history_size: default_history_size(),
            history_ignore_dups: default_history_ignore_dups(),
        }
    }
}

/// `[prompt]`.
#[derive(Debug, Clone)]
pub struct PromptConfig {
    /// Prompt format; `"utsh"` is the built-in simple prompt.
    pub format: String,
    /// Whether the git branch status is shown.
    pub show_git_status: bool,
    /// Whether the exit code of the last command is shown.
    pub show_exit_code: bool,
}

impl Default for PromptConfig {
    fn default() -> (c: PromptConfig)
        ensures
            c.format@ == "utsh"@,
            c.show_git_status,
            !c.show_exit_code,
    {
        PromptConfig {
            format: default_prompt_format(),
            show_git_status: default_show_git_status(),
            show_exit_code: false,
        }
    }
}

/// `[plugins]`.
#[derive(Debug)]
pub struct PluginConfig {
    /// Whether the built-in plugins are loaded.
    pub enable_defaults: bool,
    /// Whether plugins are updated automatically.
    pub autoupdate: bool,
    /// Limit on enabled third-party plugins.
    pub max_plugins: usize,
    /// Third-party plugins enabled explicitly.
    pub enabled: Vec<String>,
    /// Per-plugin settings, as (plugin name, settings) pairs.
    pub overrides: Vec<(String, toml::Value)>,
}

impl Default for PluginConfig {
    fn default() -> (c: PluginConfig)
        ensures
            c.enable_defaults,
            !c.autoupdate,
            c.max_plugins == 50,
            c.enabled@.len() == 0,
            c.overrides@.len() == 0,
    {
        PluginConfig {
            enable_defaults: default_enable_defaults(),
            autoupdate: false,
            max_plugins: default_max_plugins(),
            enabled: Vec::new(),
            overrides: Vec::new(),
        }
    }
}

/// `[webui]`.
#[derive(Debug, Clone)]
pub struct WebuiConfig {
    /// Whether `utsh webui` may start the server.
    pub enabled: bool,
    /// Listening port.
    pub port: u16,
    /// Whether a browser is opened after start.
    pub auto_open: bool,
    /// Access token (without one the server does not authenticate).
    pub auth_token: Option<String>,
}

impl Default for WebuiConfig {
    fn default() -> (c: WebuiConfig)
        ensures
            c.enabled,
            c.port == 8787,
            c.auto_open,
            c.auth_token is None,
    {
        WebuiConfig {
            enabled: default_webui_enabled(),
            port: default_webui_port(),
            auto_open: default_auto_open(),
            auth_token: None,
        }
    }
}

/// `[theme]`.
#[derive(Debug, Clone)]
pub struct ThemeConfig {
    /// Current theme (`"none"`: no theme).
    pub current: String,
}

impl Default for ThemeConfig {
    fn default() -> (c: ThemeConfig)
        ensures
            c.current@ == "none"@,
    {
        ThemeConfig { current: default_theme_current() }
    }
}

/// The whole configuration.
#[derive(Debug)]
pub struct Config {
    /// `[general]`.
    pub general: GeneralConfig,
    /// `[prompt]`.
    pub prompt: PromptConfig,
    /// `[plugins]`.
    pub plugins: PluginConfig,
    /// `[aliases]`, by name.
    pub aliases: StrMap,
    /// `[webui]`.
    pub webui: WebuiConfig,
    /// `[theme]`.
    pub theme: ThemeConfig,
}

/// `after` has the sections of `before` that alias, theme and plugin-list
/// edits leave alone: `[general]`, `[prompt]`, `[webui]`, and in `[plugins]`
/// everything but the enabled list.
pub open spec fn keeps_settings(before: Config, after: Config) -> bool {
    &&& after.general == before.general
    &&& after.prompt == before.prompt
    &&& after.webui == before.webui
    &&& after.plugins.enable_defaults == before.plugins.enable_defaults
    &&& after.plugins.autoupdate == before.plugins.autoupdate
    &&& after.plugins.max_plugins == before.plugins.max_plugins
    &&& after.plugins.overrides == before.plugins.overrides
}

/// The aliases a new configuration starts with.
pub open spec fn default_aliases() -> Map<Seq<char>, Seq<char>> {
    map!["ll"@ => "ls -alF"@, "gst"@ => "git status"@, "ga"@ => "git add"@]
}

impl Default for Config {
    fn default() -> (c: Config)
        ensures
            c.aliases@ == default_aliases(),
            c.general.default_editor@ == "nvim"@,
            c.general.history_size == 10_000,
            c.general.history_ignore_dups,
            c.prompt.format@ == "utsh"@,
            c.prompt.show_git_status,
            !c.prompt.show_exit_code,
            c.plugins.enable_defaults,
            !c.plugins.autoupdate,
            c.plugins.max_plugins == 50,
            c.plugins.enabled@.len() == 0,
            c.plugins.overrides@.len() == 0,
            c.webui.enabled,
            c.webui.port == 8787,
            c.webui.auto_open,
            c.webui.auth_token is None,
            c.theme.current@ == "none"@,
    {
        let mut aliases = StrMap::new();
        aliases.insert("ll".to_owned(), "ls -alF".to_owned());
        aliases.insert("gst".to_owned(), "git status".to_owned());
        aliases.insert("ga".to_owned(), "git add".to_owned());
        assert(aliases@ =~= default_aliases());
        Config {
            general: GeneralConfig::default(),
            prompt: PromptConfig::default(),
            plugins: PluginConfig::default(),
            aliases,
            webui: WebuiConfig::default(),
            theme: ThemeConfig::default(),
        }
    }
}

/// Whether `name` is among the enabled plugins.
pub open spec fn enabled_contains(enabled: Seq<String>, name: Seq<char>) -> bool {
    strings_view(enabled).contains(name)
}

/// Enabling `name`: nothing to do when it is enabled already; otherwise it
/// is appended, unless `max` plugins are enabled.  The answer and the new
/// list.
pub open spec fn enable_spec(enabled: Seq<Seq<char>>, max: nat, name: Seq<char>) -> (
    bool,
    Seq<Seq<char>>,
) {
    if enabled.contains(name) {
        (true, enabled)
    } else if enabled.len() < max {
        (true, enabled.push(name))
    } else {
        (false, enabled)
    }
}

/// The names other than `name`.
pub open spec fn other_than(name: Seq<char>) -> spec_fn(Seq<char>) -> bool {
    |n: Seq<char>| n != name
}

/// Disabling `name`: every occurrence goes; the answer is whether there
/// was one.
pub open spec fn disable_spec(enabled: Seq<Seq<char>>, name: Seq<char>) -> (bool, Seq<Seq<char>>) {
    (enabled.contains(name), enabled.filter(other_than(name)))
}

impl Config {
    /// The alias table.
    pub fn aliases(&self) -> (r: &StrMap)
        ensures
            r@ == self.aliases@,
    {
        &self.aliases
    }

    /// The command of an alias.
    pub fn alias(&self, name: &str) -> (r: Option<&str>)
        ensures
            match r {
                Some(v) => self.aliases@.contains_key(name@) && self.aliases@[name@] == v@,
                None => !self.aliases@.contains_key(name@),
            },
    {
        match self.aliases.get(name) {
            Some(v) => Some(v.as_str()),
            None => None,
        }
    }

    /// Adds or replaces an alias; `true` when it is new.
    pub fn add_alias(&mut self, name: &str, command: &str) -> (r: Result<bool, ConfigError>)
        ensures
            !valid_name(name@) ==> (r matches Err(ConfigError::InvalidAliasName(n)) && n@ == name@),
            valid_name(name@) && !valid_command(command@) ==> (r matches Err(
                ConfigError::InvalidAliasCommand(n),
            ) && n@ == name@),
            valid_name(name@) && valid_command(command@) ==> (r matches Ok(is_new) && is_new
                == !old(self).aliases@.contains_key(name@)),
            r is Ok ==> final(self).aliases@ == old(self).aliases@.insert(name@, command@),
            r is Err ==> final(self).aliases@ == old(self).aliases@,
            final(self).plugins.enabled@ == old(self).plugins.enabled@,
            final(self).plugins.max_plugins == old(self).plugins.max_plugins,
            final(self).theme.current@ == old(self).theme.current@,
            keeps_settings(*old(self), *final(self)),
    {
        if !is_valid_name(name) {
            return Err(ConfigError::InvalidAliasName(owned(name)));
        }
        if !is_valid_command(command) {
            return Err(ConfigError::InvalidAliasCommand(owned(name)));
        }
        let is_new = self.aliases.insert(owned(name), owned(command));
        Ok(is_new)
    }

    /// Removes an alias; `true` when it existed.
    pub fn remove_alias(&mut self, name: &str) -> (r: bool)
        ensures
            final(self).aliases@ == old(self).aliases@.remove(name@),
            r == old(self).aliases@.contains_key(name@),
            final(self).plugins.enabled@ == old(self).plugins.enabled@,
            final(self).plugins.max_plugins == old(self).plugins.max_plugins,
            final(self).theme.current@ == old(self).theme.current@,
            keeps_settings(*old(self), *final(self)),
    {
        self.aliases.remove(name)
    }

    /// The current theme (`"none"` by default).
    pub fn theme(&self) -> (r: &str)
        ensures
            r@ == self.theme.current@,
    {
        self.theme.current.as_str()
    }

    /// Sets the current theme.
    pub fn set_theme(&mut self, name: String)
        ensures
            final(self).theme.current@ == name@,
            final(self).aliases@ == old(self).aliases@,
            final(self).plugins.enabled@ == old(self).plugins.enabled@,
            final(self).plugins.max_plugins == old(self).plugins.max_plugins,
            keeps_settings(*old(self), *final(self)),
    {
        self.theme.current = name;
    }

    /// The third-party plugins enabled explicitly.
    pub fn enabled_plugins(&self) -> (r: &[String])
        ensures
            r@ == self.plugins.enabled@,
    {
        self.plugins.enabled.as_slice()
    }

    /// Whether a third-party plugin is enabled.
    pub fn is_plugin_enabled(&self, name: &str) -> (r: bool)
        ensures
            r == enabled_contains(self.plugins.enabled@, name@),
    {
        let mut i: usize = 0;
        while i < self.plugins.enabled.len()
            invariant
                i <= self.plugins.enabled@.len(),
                forall|j: int| 0 <= j < i ==> (#[trigger] self.plugins.enabled@[j])@ != name@,
            decreases self.plugins.enabled@.len() - i,
        {
            if chars_eq_str(chars_of(self.plugins.enabled[i].as_str()).as_slice(), name) {
                assert(strings_view(self.plugins.enabled@)[i as int] == name@);
                return true;
            }
            i = i + 1;
        }
        assert forall|j: int| 0 <= j < strings_view(self.plugins.enabled@).len() implies strings_view(
            self.plugins.enabled@,
        )[j] != name@ by {
            assert(self.plugins.enabled@[j]@ != name@);
        }
        false
    }

    /// Enables a plugin; `false` when it is not enabled yet and the limit
    /// of enabled plugins is reached.
    pub fn enable_plugin(&mut self, name: &str) -> (r: bool)
        ensures
            (r, strings_view(final(self).plugins.enabled@)) == enable_spec(
                strings_view(old(self).plugins.enabled@),
                old(self).plugins.max_plugins as nat,
                name@,
            ),
            final(self).plugins.max_plugins == old(self).plugins.max_plugins,
            final(self).aliases@ == old(self).aliases@,
            final(self).theme.current@ == old(self).theme.current@,
            keeps_settings(*old(self), *final(self)),
    {
        if self.is_plugin_enabled(name) {
            return true;
        }
        if self.plugins.enabled.len() >= self.plugins.max_plugins {
            return false;
        }
        let ghost before = strings_view(self.plugins.enabled@);
        self.plugins.enabled.push(owned(name));
        assert(strings_view(self.plugins.enabled@) =~= before.push(name@));
        true
    }

    /// Disables a plugin (every occurrence of its name); `true` when it was
    /// enabled.
    pub fn disable_plugin(&mut self, name: &str) -> (r: bool)
        ensures
            (r, strings_view(final(self).plugins.enabled@)) == disable_spec(
                strings_view(old(self).plugins.enabled@),
                name@,
            ),
            final(self).plugins.max_plugins == old(self).plugins.max_plugins,
            final(self).aliases@ == old(self).aliases@,
            final(self).theme.current@ == old(self).theme.current@,
            keeps_settings(*old(self), *final(self)),
    {
        let ghost old_v = strings_view(self.plugins.enabled@);
        let ghost pred = other_than(name@);
        let mut kept: Vec<String> = Vec::new();
        let mut i: usize = 0;
        assert(old_v.take(0) =~= Seq::<Seq<char>>::empty());
        while i < self.plugins.enabled.len()
            invariant
                i <= self.plugins.enabled@.len(),
                old_v == strings_view(self.plugins.enabled@),
                pred == other_than(name@),
                strings_view(kept@) == old_v.take(i as int).filter(pred),
            decreases self.plugins.enabled@.len() - i,
        {
            let e = self.plugins.enabled[i].clone();
            let same = chars_eq_str(chars_of(e.as_str()).as_slice(), name);
            proof {
                reveal(Seq::filter);
                let t = old_v.take(i + 1);
                assert(t.drop_last() =~= old_v.take(i as int));
                assert(t.last() == e@);
                assert(t.filter(pred) == (if pred(t.last()) {
                    t.drop_last().filter(pred).push(t.last())
                } else {
                    t.drop_last().filter(pred)
                }));
            }
            if !same {
                let ghost before = strings_view(kept@);
                kept.push(e);
                assert(strings_view(kept@) =~= before.push(e@));
            }
            i = i + 1;
        }
        assert(old_v.take(i as int) =~= old_v);
        let changed = kept.len() != self.plugins.enabled.len();
        proof {
            old_v.lemma_filter_len(pred);
            if old_v.contains(name@) {
                let j = choose|j: int| 0 <= j < old_v.len() && old_v[j] == name@;
                if old_v.filter(pred).len() == old_v.len() {
                    lemma_filter_full(old_v, pred, j);
                }
            } else {
                lemma_filter_none(old_v, pred, name@);
            }
        }
        self.plugins.enabled = kept;
        changed
    }
}

/// A filter that keeps every element keeps the element at `j`.
proof fn lemma_filter_full(s: Seq<Seq<char>>, pred: spec_fn(Seq<char>) -> bool, j: int)
    requires
        0 <= j < s.len(),
        s.filter(pred).len() == s.len(),
    ensures
        pred(s[j]),
    decreases s.len(),
{
    reveal(Seq::filter);
    if s.len() > 0 {
        let t = s.drop_last();
        t.lemma_filter_len(pred);
        assert(s.filter(pred) == (if pred(s.last()) {
            t.filter(pred).push(s.last())
        } else {
            t.filter(pred)
        }));
        if !pred(s.last()) {
            assert(t.filter(pred).len() <= t.len());
        } else if j < s.len() - 1 {
            assert(t[j] == s[j]);
            lemma_filter_full(t, pred, j);
        }
    }
}

/// Filtering out a value that does not occur changes nothing.
proof fn lemma_filter_none(s: Seq<Seq<char>>, pred: spec_fn(Seq<char>) -> bool, x: Seq<char>)
    requires
        !s.contains(x),
        forall|n: Seq<char>| #[trigger] pred(n) <==> n != x,
    ensures
        s.filter(pred) == s,
    decreases s.len(),
{
    reveal(Seq::filter);
    if s.len() > 0 {
        let t = s.drop_last();
        assert(!t.contains(x)) by {
            if t.contains(x) {
                let k = choose|k: int| 0 <= k < t.len() && t[k] == x;
                assert(s[k] == x);
            }
        }
        lemma_filter_none(t, pred, x);
        assert(s.last() != x) by {
            assert(s[s.len() - 1] == s.last());
        }
        assert(t.push(s.last()) =~= s);
    } else {
        assert(s.filter(pred) =~= s);
    }
}


// ---------------------------------------------------------------------------
// Laws
// ---------------------------------------------------------------------------

/// Enabling never takes the list beyond the limit.
pub proof fn lemma_enable_within_limit(enabled: Seq<Seq<char>>, max: nat, name: Seq<char>)
    requires
        enabled.len() <= max,
    ensures
        enable_spec(enabled, max, name).1.len() <= max,
{
}

/// After a successful enable the plugin is enabled.
pub proof fn lemma_enable_then_enabled(enabled: Seq<Seq<char>>, max: nat, name: Seq<char>)
    ensures
        enable_spec(enabled, max, name).0 ==> enable_spec(enabled, max, name).1.contains(name),
{
    if !enabled.contains(name) && enabled.len() < max {
        assert(enabled.push(name)[enabled.len() as int] == name);
    }
}

/// After a disable the plugin is not enabled.
pub proof fn lemma_disable_then_disabled(enabled: Seq<Seq<char>>, name: Seq<char>)
    ensures
        !disable_spec(enabled, name).1.contains(name),
{
    let f = enabled.filter(other_than(name));
    if f.contains(name) {
        let k = choose|k: int| 0 <= k < f.len() && f[k] == name;
        enabled.lemma_filter_pred(other_than(name), k);
    }
}

/// Disabling a plugin that a successful enable just added gives the list
/// back.
pub proof fn lemma_disable_undoes_enable(enabled: Seq<Seq<char>>, max: nat, name: Seq<char>)
    requires
        !enabled.contains(name),
        enable_spec(enabled, max, name).0,
    ensures
        disable_spec(enable_spec(enabled, max, name).1, name).1 == enabled,
{
    let p = enabled.push(name);
    reveal(Seq::filter);
    assert(p.drop_last() =~= enabled);
    assert(p.last() == name);
    lemma_filter_none(enabled, other_than(name), name);
    assert(p.filter(other_than(name)) == enabled.filter(other_than(name)));
}

} // verus!
