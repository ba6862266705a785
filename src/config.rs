use vstd::prelude::*;
use vstd::string::*;

use crate::credentials::{DEFAULT_CREDENTIAL_ATTEMPTS, DEFAULT_CREDENTIAL_TIMEOUT};
use crate::panel::{KeyCode, KeyInput, KeyModifiers};
use crate::pattern::{capture_group, find_all, regex_group, regex_matches};
use crate::text::{owned, str_equal};

verus! {

/// Modifiers of a key binding are written inside angle brackets.
pub const MODIFIER_PATTERN: &'static str = "<.+?>";

/// The key of a binding is the lower-case letter after the last modifier.
pub const KEY_PATTERN: &'static str = ".*<[^>]+>(?<char>[a-z])";

/// The name of the child nodes of `keys` that bind a key.
pub const BIND_KEY: &'static str = "bind";

/// The modifiers that a key binding may use.
pub const VALID_MODIFIERS: &'static str = "<shft>, <super>, <ctrl>, <alt>, <meta> and <hypr>";

/// The colour name that a tag gets when none is given or it cannot be read.
pub const FALLBACK_COLOR: &'static str = "White";

/// The canonical name (as the terminal library writes it) of the colour that
/// `name` denotes, if it denotes one.
pub uninterp spec fn color_of(name: Seq<char>) -> Option<Seq<char>>;

/// Relies on `ratatui::style::Color`'s `FromStr` and `Display`: the colour
/// that a name denotes, written back in its canonical form; this depends on
/// the name alone.
#[verifier::external_body]
fn canonical_color(name: &str) -> (r: Option<String>)
    ensures
        match r {
            Some(c) => color_of(name@) == Some(c@),
            None => color_of(name@) == None::<Seq<char>>,
        },
{
    <ratatui::style::Color as std::str::FromStr>::from_str(name).ok().map(|c| c.to_string())
}

/// The logical actions that keys can be bound to.
#[derive(PartialEq, Eq, Structural, Clone, Copy, Debug)]
pub enum KeyAction {
    NextItem,
    PreviousItem,
    NextView,
    PreviousView,
    NextDetailItem,
    PreviousDetailItem,
}

/// The action that a name in a configuration file stands for.
pub open spec fn action_named(value: Seq<char>) -> Option<KeyAction> {
    if value == "next_item"@ {
        Some(KeyAction::NextItem)
    } else if value == "previous_item"@ {
        Some(KeyAction::PreviousItem)
    } else if value == "next_view"@ {
        Some(KeyAction::NextView)
    } else if value == "previous_view"@ {
        Some(KeyAction::PreviousView)
    } else if value == "next_detail_item"@ {
        Some(KeyAction::NextDetailItem)
    } else if value == "previous_detail_item"@ {
        Some(KeyAction::PreviousDetailItem)
    } else {
        None
    }
}

impl KeyAction {
    /// The action named `value` in a configuration file.
    pub fn parse(value: &str) -> (r: Option<KeyAction>)
        ensures
            r == action_named(value@),
    {
        if str_equal(value, "next_item") {
            Some(KeyAction::NextItem)
        } else if str_equal(value, "previous_item") {
            Some(KeyAction::PreviousItem)
        } else if str_equal(value, "next_view") {
            Some(KeyAction::NextView)
        } else if str_equal(value, "previous_view") {
            Some(KeyAction::PreviousView)
        } else if str_equal(value, "next_detail_item") {
            Some(KeyAction::NextDetailItem)
        } else if str_equal(value, "previous_detail_item") {
            Some(KeyAction::PreviousDetailItem)
        } else {
            None
        }
    }
}

/// The options of the configuration file.
#[derive(PartialEq, Eq, Structural, Clone, Copy, Debug)]
pub enum ConfigOption {
    GithubTokenPath,
    GitlabTokenPath,
    GiteaTokenPath,
    CredentialsAttempts,
    CredentialsTimeout,
    Tags,
    TimeFormat,
    Keys,
}

/// The option that a node name stands for.
pub open spec fn option_named(value: Seq<char>) -> Option<ConfigOption> {
    if value == "github_token_path"@ {
        Some(ConfigOption::GithubTokenPath)
    } else if value == "gitlab_token_path"@ {
        Some(ConfigOption::GitlabTokenPath)
    } else if value == "gitea_token_path"@ {
        Some(ConfigOption::GiteaTokenPath)
    } else if value == "credentials_attempts"@ {
        Some(ConfigOption::CredentialsAttempts)
    } else if value == "credentials_timeout"@ {
        Some(ConfigOption::CredentialsTimeout)
    } else if value == "tags"@ {
        Some(ConfigOption::Tags)
    } else if value == "time_format"@ {
        Some(ConfigOption::TimeFormat)
    } else if value == "keys"@ {
        Some(ConfigOption::Keys)
    } else {
        None
    }
}

impl ConfigOption {
    /// The option that a node name stands for, if any.
    pub fn parse(value: &str) -> (r: Option<ConfigOption>)
        ensures
            r == option_named(value@),
    {
        if str_equal(value, "github_token_path") {
            Some(ConfigOption::GithubTokenPath)
        } else if str_equal(value, "gitlab_token_path") {
            Some(ConfigOption::GitlabTokenPath)
        } else if str_equal(value, "gitea_token_path") {
            Some(ConfigOption::GiteaTokenPath)
        } else if str_equal(value, "credentials_attempts") {
            Some(ConfigOption::CredentialsAttempts)
        } else if str_equal(value, "credentials_timeout") {
            Some(ConfigOption::CredentialsTimeout)
        } else if str_equal(value, "tags") {
            Some(ConfigOption::Tags)
        } else if str_equal(value, "time_format") {
            Some(ConfigOption::TimeFormat)
        } else if str_equal(value, "keys") {
            Some(ConfigOption::Keys)
        } else {
            None
        }
    }
}

/// What went wrong in a configuration file.
pub enum ConfigErrorKind {
    ConfigFileNotParsable,
    FileNotReadable,
    Syntax,
    OptionNotFound { node_name: String },
    OptionType { expected_type: String, actual_type: String },
    ExpectedMultipleValues { expected_amount: usize, actual_amount: usize },
    UnrecognisedOption { option_name: String },
    UnrecognisedAction { action_name: String },
    UnrecognisedModifier { modifier_name: String, valid_modifiers: String },
    KeyNotFound { key_string: String },
    KeyToCharConversion { grabbed_key_string: String },
}

/// A problem in a configuration file, with the span (offset, length) of the
/// node it concerns when known.
pub struct ConfigError {
    pub kind: ConfigErrorKind,
    pub error_location: Option<(usize, usize)>,
}

/// A child of an option node: its name, span, first value when that is a
/// string, and all of its string values.
pub struct ConfigChild {
    pub name: String,
    pub span: (usize, usize),
    pub first_string: Option<String>,
    pub strings: Vec<String>,
}

/// An option node of a configuration file, as plain values.
pub struct ConfigNode {
    pub name: String,
    pub span: (usize, usize),
    pub first_string: Option<String>,
    pub first_integer: Option<i128>,
    pub children: Vec<ConfigChild>,
}

/// The value of the last pair in `pairs` whose first part is `key`.
pub open spec fn last_value<K, V>(pairs: Seq<(K, V)>, key: K) -> Option<V>
    decreases pairs.len(),
{
    if pairs.len() == 0 {
        None
    } else if pairs.last().0 == key {
        Some(pairs.last().1)
    } else {
        last_value(pairs.drop_last(), key)
    }
}

proof fn lemma_last_value_at<K, V>(pairs: Seq<(K, V)>, key: K, i: int)
    requires
        0 <= i < pairs.len(),
        pairs[i].0 == key,
        forall|j: int| i < j < pairs.len() ==> pairs[j].0 != key,
    ensures
        last_value(pairs, key) == Some(pairs[i].1),
    decreases pairs.len(),
{
    if i < pairs.len() - 1 {
        lemma_last_value_at(pairs.drop_last(), key, i);
    }
}

/// The modifiers that the modifier tokens of a binding switch on.
pub open spec fn modifiers_of(tokens: Seq<Seq<char>>) -> KeyModifiers
    decreases tokens.len(),
{
    if tokens.len() == 0 {
        KeyModifiers::none_spec()
    } else {
        let m = modifiers_of(tokens.drop_last());
        let t = tokens.last();
        if t == "<shft>"@ {
            KeyModifiers { shift: true, ..m }
        } else if t == "<super>"@ {
            KeyModifiers { super_key: true, ..m }
        } else if t == "<ctrl>"@ {
            KeyModifiers { control: true, ..m }
        } else if t == "<alt>"@ {
            KeyModifiers { alt: true, ..m }
        } else if t == "<meta>"@ {
            KeyModifiers { meta: true, ..m }
        } else if t == "<hypr>"@ {
            KeyModifiers { hyper: true, ..m }
        } else {
            m
        }
    }
}

/// The modifier tokens of a binding that are not modifiers.
pub open spec fn unknown_modifiers(tokens: Seq<Seq<char>>) -> Seq<Seq<char>>
    decreases tokens.len(),
{
    if tokens.len() == 0 {
        Seq::empty()
    } else {
        let rest = unknown_modifiers(tokens.drop_last());
        let t = tokens.last();
        if t == "<shft>"@ || t == "<super>"@ || t == "<ctrl>"@ || t == "<alt>"@ || t == "<meta>"@
            || t == "<hypr>"@ {
            rest
        } else {
            rest.push(t)
        }
    }
}

pub open spec fn views_of(v: Seq<String>) -> Seq<Seq<char>> {
    v.map_values(|s: String| s@)
}

/// The key that a binding's key group `key` gives, with `modifiers`.
pub open spec fn bound_key(key: Option<Seq<char>>, modifiers: KeyModifiers) -> Option<KeyInput> {
    match key {
        Some(k) => if k.len() > 0 {
            Some(KeyInput { code: KeyCode::Char(k[0]), modifiers })
        } else {
            None
        },
        None => None,
    }
}

fn set_modifier(m: KeyModifiers, token: &str) -> (r: (KeyModifiers, bool))
    ensures
        r.1 == (token@ == "<shft>"@ || token@ == "<super>"@ || token@ == "<ctrl>"@ || token@
            == "<alt>"@ || token@ == "<meta>"@ || token@ == "<hypr>"@),
        r.0 == if token@ == "<shft>"@ {
            KeyModifiers { shift: true, ..m }
        } else if token@ == "<super>"@ {
            KeyModifiers { super_key: true, ..m }
        } else if token@ == "<ctrl>"@ {
            KeyModifiers { control: true, ..m }
        } else if token@ == "<alt>"@ {
            KeyModifiers { alt: true, ..m }
        } else if token@ == "<meta>"@ {
            KeyModifiers { meta: true, ..m }
        } else if token@ == "<hypr>"@ {
            KeyModifiers { hyper: true, ..m }
        } else {
            m
        },
{
    if str_equal(token, "<shft>") {
        (KeyModifiers { shift: true, ..m }, true)
    } else if str_equal(token, "<super>") {
        (KeyModifiers { super_key: true, ..m }, true)
    } else if str_equal(token, "<ctrl>") {
        (KeyModifiers { control: true, ..m }, true)
    } else if str_equal(token, "<alt>") {
        (KeyModifiers { alt: true, ..m }, true)
    } else if str_equal(token, "<meta>") {
        (KeyModifiers { meta: true, ..m }, true)
    } else if str_equal(token, "<hypr>") {
        (KeyModifiers { hyper: true, ..m }, true)
    } else {
        (m, false)
    }
}

/// `e` reports the unknown modifier `name`.
pub open spec fn reports_unknown_modifier(e: ConfigError, name: Seq<char>) -> bool {
    match e.kind {
        ConfigErrorKind::UnrecognisedModifier { modifier_name, .. } => modifier_name@ == name,
        _ => false,
    }
}

/// The key of a binding, when it is well formed: a usable key and no
/// unknown modifier.
pub open spec fn binding_key(key: Option<Seq<char>>, tokens: Seq<Seq<char>>) -> Option<KeyInput> {
    if unknown_modifiers(tokens).len() == 0 {
        bound_key(key, modifiers_of(tokens))
    } else {
        None
    }
}

/// Builds the key of a binding from its modifier tokens and its key group:
/// the key is the first character of the group, the modifiers are those the
/// tokens name. A binding with an unknown modifier or without a usable key
/// fails, with an error for each unknown modifier, in order, and one more
/// when the key is missing.
pub fn key_event_from_parts(
    key_str: &str,
    span: (usize, usize),
    tokens: &Vec<String>,
    key: Option<String>,
) -> (r: Result<KeyInput, Vec<ConfigError>>)
    ensures
        ({
            let key_view = match key {
                Some(k) => Some(k@),
                None => None,
            };
            let unknown = unknown_modifiers(views_of(tokens@));
            let usable = bound_key(key_view, modifiers_of(views_of(tokens@)));
            &&& match binding_key(key_view, views_of(tokens@)) {
                Some(k) => r == Ok::<KeyInput, Vec<ConfigError>>(k),
                None => r is Err,
            }
            &&& r is Err ==> r->Err_0@.len() == unknown.len() + if usable is Some {
                0int
            } else {
                1int
            }
            &&& r is Err ==> forall|k: int|
                0 <= k < unknown.len() ==> reports_unknown_modifier(r->Err_0@[k], unknown[k])
        }),
{
    let mut modifiers = KeyModifiers::none();
    let mut errors: Vec<ConfigError> = Vec::new();
    let mut i: usize = 0;
    while i < tokens.len()
        invariant
            i <= tokens@.len(),
            modifiers == modifiers_of(views_of(tokens@.subrange(0, i as int))),
            errors@.len() == unknown_modifiers(views_of(tokens@.subrange(0, i as int))).len(),
            forall|k: int|
                0 <= k < errors@.len() ==> reports_unknown_modifier(
                    errors@[k],
                    unknown_modifiers(views_of(tokens@.subrange(0, i as int)))[k],
                ),
        decreases tokens@.len() - i,
    {
        let (m, known) = set_modifier(modifiers, tokens[i].as_str());
        proof {
            let a = views_of(tokens@.subrange(0, i + 1));
            assert(a.drop_last() =~= views_of(tokens@.subrange(0, i as int)));
            assert(a.last() == tokens@[i as int]@);
        }
        if !known {
            errors.push(
                ConfigError {
                    kind: ConfigErrorKind::UnrecognisedModifier {
                        modifier_name: tokens[i].clone(),
                        valid_modifiers: owned(VALID_MODIFIERS),
                    },
                    error_location: Some(span),
                },
            );
        }
        modifiers = m;
        i += 1;
    }
    proof {
        assert(tokens@.subrange(0, tokens@.len() as int) =~= tokens@);
    }
    let ghost before = errors@;
    match key {
        Some(k) => {
            if k.unicode_len() > 0 {
                if errors.len() == 0 {
                    let c = k.as_str().get_char(0);
                    Ok(KeyInput { code: KeyCode::Char(c), modifiers })
                } else {
                    Err(errors)
                }
            } else {
                errors.push(
                    ConfigError {
                        kind: ConfigErrorKind::KeyToCharConversion { grabbed_key_string: k },
                        error_location: Some(span),
                    },
                );
                proof {
                    assert forall|k: int| 0 <= k < before.len() implies errors@[k] == before[k] by {}
                }
                Err(errors)
            }
        },
        None => {
            errors.push(
                ConfigError {
                    kind: ConfigErrorKind::KeyNotFound { key_string: owned(key_str) },
                    error_location: Some(span),
                },
            );
            proof {
                assert forall|k: int| 0 <= k < before.len() implies errors@[k] == before[k] by {}
            }
            Err(errors)
        },
    }
}

/// Reads a key binding such as `<ctrl>j`: the modifiers inside angle
/// brackets, then the key.
pub fn parse_key_event(key_str: &str, span: (usize, usize)) -> (r: Result<KeyInput, Vec<ConfigError>>)
    ensures
        ({
            let tokens = regex_matches(MODIFIER_PATTERN@, key_str@);
            let key = regex_group(KEY_PATTERN@, key_str@, "char"@);
            let unknown = unknown_modifiers(tokens);
            &&& match binding_key(key, tokens) {
                Some(k) => r == Ok::<KeyInput, Vec<ConfigError>>(k),
                None => r is Err,
            }
            &&& r is Err ==> r->Err_0@.len() == unknown.len() + if bound_key(
                key,
                modifiers_of(tokens),
            ) is Some {
                0int
            } else {
                1int
            }
            &&& r is Err ==> forall|k: int|
                0 <= k < unknown.len() ==> reports_unknown_modifier(r->Err_0@[k], unknown[k])
        }),
{
    let tokens = find_all(MODIFIER_PATTERN, key_str);
    let key = capture_group(KEY_PATTERN, key_str, "char");
    proof {
        assert(views_of(tokens@) =~= regex_matches(MODIFIER_PATTERN@, key_str@));
    }
    key_event_from_parts(key_str, span, &tokens, key)
}

/// The user's settings: tokens and where to find them, how long to wait for
/// the credential helper, tag colours, the time format and key bindings.
pub struct Config {
    pub github_token: Option<String>,
    pub github_token_path: Option<String>,
    pub gitlab_token: Option<String>,
    pub gitlab_token_path: Option<String>,
    pub gitea_token: Option<String>,
    pub gitea_token_path: Option<String>,
    pub credential_attempts: u64,
    pub credential_timeout: u64,
    pub tag_styles: Vec<(String, String)>,
    pub time_fmt: String,
    pub keys: Vec<(KeyInput, KeyAction)>,
}

pub open spec fn string_pairs(v: Seq<(String, String)>) -> Seq<(Seq<char>, Seq<char>)> {
    v.map_values(|p: (String, String)| (p.0@, p.1@))
}

impl Config {
    /// The colour that the configuration gives `tag`, if any.
    pub closed spec fn tag_color(&self, tag: Seq<char>) -> Option<Seq<char>> {
        last_value(string_pairs(self.tag_styles@), tag)
    }

    /// The action bound to `key`, if any.
    pub closed spec fn action_of(&self, key: KeyInput) -> Option<KeyAction> {
        last_value(self.keys@, key)
    }

    pub closed spec fn time_format(&self) -> Seq<char> {
        self.time_fmt@
    }

    fn set_tag(&mut self, tag: String, color: String)
        ensures
            final(self).tag_color(tag@) == Some(color@),
            forall|t: Seq<char>| t != tag@ ==> final(self).tag_color(t) == old(self).tag_color(t),
            forall|k: KeyInput| final(self).action_of(k) == old(self).action_of(k),
            final(self).time_format() == old(self).time_format(),
            final(self).github_token == old(self).github_token,
            final(self).github_token_path == old(self).github_token_path,
            final(self).gitlab_token == old(self).gitlab_token,
            final(self).gitlab_token_path == old(self).gitlab_token_path,
            final(self).gitea_token == old(self).gitea_token,
            final(self).gitea_token_path == old(self).gitea_token_path,
            final(self).credential_attempts == old(self).credential_attempts,
            final(self).credential_timeout == old(self).credential_timeout,
    {
        let ghost before = self.tag_styles@;
        self.tag_styles.push((tag, color));
        proof {
            assert(string_pairs(self.tag_styles@).drop_last() =~= string_pairs(before));
        }
    }

    fn set_key(&mut self, key: KeyInput, action: KeyAction)
        ensures
            final(self).action_of(key) == Some(action),
            forall|k: KeyInput| k != key ==> final(self).action_of(k) == old(self).action_of(k),
            forall|t: Seq<char>| final(self).tag_color(t) == old(self).tag_color(t),
            final(self).time_format() == old(self).time_format(),
            final(self).github_token == old(self).github_token,
            final(self).github_token_path == old(self).github_token_path,
            final(self).gitlab_token == old(self).gitlab_token,
            final(self).gitlab_token_path == old(self).gitlab_token_path,
            final(self).gitea_token == old(self).gitea_token,
            final(self).gitea_token_path == old(self).gitea_token_path,
            final(self).credential_attempts == old(self).credential_attempts,
            final(self).credential_timeout == old(self).credential_timeout,
    {
        let ghost before = self.keys@;
        self.keys.push((key, action));
        proof {
            assert(self.keys@.drop_last() =~= before);
        }
    }

    /// The colour name of `tag`: the configured one, else white.
    pub fn get_tag_color(&self, tag: &str) -> (r: String)
        ensures
            r@ == match self.tag_color(tag@) {
                Some(c) => c,
                None => FALLBACK_COLOR@,
            },
    {
        let mut i: usize = self.tag_styles.len();
        proof {
            assert(self.tag_styles@.subrange(0, i as int) =~= self.tag_styles@);
        }
        while i > 0
            invariant
                i <= self.tag_styles@.len(),
                self.tag_color(tag@) == last_value(
                    string_pairs(self.tag_styles@.subrange(0, i as int)),
                    tag@,
                ),
            decreases i,
        {
            proof {
                let a = string_pairs(self.tag_styles@.subrange(0, i as int));
                assert(a.drop_last() =~= string_pairs(self.tag_styles@.subrange(0, i - 1)));
            }
            if str_equal(self.tag_styles[i - 1].0.as_str(), tag) {
                return self.tag_styles[i - 1].1.clone();
            }
            i -= 1;
        }
        proof {
            assert(string_pairs(self.tag_styles@.subrange(0, 0)) =~= Seq::<(Seq<char>, Seq<char>)>::empty());
        }
        owned(FALLBACK_COLOR)
    }

    /// The action bound to `key`, if any.
    pub fn get_key_action(&self, key: KeyInput) -> (r: Option<KeyAction>)
        ensures
            r == self.action_of(key),
    {
        let mut i: usize = self.keys.len();
        proof {
            assert(self.keys@.subrange(0, i as int) =~= self.keys@);
        }
        while i > 0
            invariant
                i <= self.keys@.len(),
                self.action_of(key) == last_value(self.keys@.subrange(0, i as int), key),
            decreases i,
        {
            proof {
                assert(self.keys@.subrange(0, i as int).drop_last() =~= self.keys@.subrange(0, i - 1));
            }
            if self.keys[i - 1].0 == key {
                return Some(self.keys[i - 1].1);
            }
            i -= 1;
        }
        None
    }

    /// The format in which dates are shown.
    pub fn get_datetime_fmt(&self) -> (r: &str)
        ensures
            r@ == self.time_format(),
    {
        self.time_fmt.as_str()
    }
}

/// `e` reports the unknown option `name`.
pub open spec fn reports_unknown_option(e: ConfigError, name: Seq<char>) -> bool {
    match e.kind {
        ConfigErrorKind::UnrecognisedOption { option_name } => option_name@ == name,
        _ => false,
    }
}

/// The setting that an integer option gives: the value when it fits, else the default.
pub open spec fn integer_setting(value: Option<i128>, default: u64) -> u64 {
    match value {
        Some(v) => if 0 <= v <= u64::MAX {
            v as u64
        } else {
            default
        },
        None => default,
    }
}

fn integer_or(value: Option<i128>, default: u64) -> (r: u64)
    ensures
        r == integer_setting(value, default),
{
    match value {
        Some(v) => if 0 <= v && v <= u64::MAX as i128 {
            v as u64
        } else {
            default
        },
        None => default,
    }
}

/// The colour name written for a tag child: its first value, else white.
pub open spec fn tag_color_name(c: ConfigChild) -> Seq<char> {
    match c.first_string {
        Some(s) => s@,
        None => "white"@,
    }
}

/// The colour a tag child gets: the one its name denotes, else white.
pub open spec fn child_color(c: ConfigChild) -> Seq<char> {
    match color_of(tag_color_name(c)) {
        Some(col) => col,
        None => FALLBACK_COLOR@,
    }
}

/// Tag name and colour of each child of a `tags` node.
pub open spec fn child_tag_colors(children: Seq<ConfigChild>) -> Seq<(Seq<char>, Seq<char>)> {
    children.map_values(|c: ConfigChild| (c.name@, child_color(c)))
}

/// The binding that a child of a `keys` node makes, if it is a well formed
/// `bind` line: a key, then an action.
pub open spec fn child_binding(c: ConfigChild) -> Option<(KeyInput, KeyAction)> {
    if c.name@ == BIND_KEY@ && c.strings@.len() >= 2 {
        let key = c.strings@[0]@;
        match (
            binding_key(
                regex_group(KEY_PATTERN@, key, "char"@),
                regex_matches(MODIFIER_PATTERN@, key),
            ),
            action_named(c.strings@[1]@),
        ) {
            (Some(k), Some(a)) => Some((k, a)),
            _ => None,
        }
    } else {
        None
    }
}

/// The number of `bind` lines among `children` that make no binding.
pub open spec fn malformed_binds(children: Seq<ConfigChild>) -> nat
    decreases children.len(),
{
    if children.len() == 0 {
        0
    } else {
        let c = children.last();
        malformed_binds(children.drop_last()) + if c.name@ == BIND_KEY@ && child_binding(c) is None {
            1nat
        } else {
            0nat
        }
    }
}

/// The action that the last binding of `key` among `children` gives it.
pub open spec fn bound_action(children: Seq<ConfigChild>, key: KeyInput) -> Option<KeyAction>
    decreases children.len(),
{
    if children.len() == 0 {
        None
    } else {
        match child_binding(children.last()) {
            Some((k, a)) => if k == key {
                Some(a)
            } else {
                bound_action(children.drop_last(), key)
            },
            None => bound_action(children.drop_last(), key),
        }
    }
}

impl Default for Config {
    /// The built-in settings: no tokens, four polls of the credential helper
    /// 50 ms apart, the standard label colours, a day-month-year time format
    /// and vi-like keys.
    fn default() -> (r: Config)
        ensures
            r.github_token is None && r.gitlab_token is None && r.gitea_token is None,
            r.github_token_path is None && r.gitlab_token_path is None && r.gitea_token_path
                is None,
            r.credential_attempts == DEFAULT_CREDENTIAL_ATTEMPTS,
            r.credential_timeout == DEFAULT_CREDENTIAL_TIMEOUT,
            r.time_format() == "%H:%M %d.%m.%Y"@,
            r.tag_color("bug"@) == Some("Red"@),
            r.tag_color("documentation"@) == Some("Blue"@),
            r.tag_color("duplicate"@) == Some("Gray"@),
            r.tag_color("enhancement"@) == Some("LightCyan"@),
            r.tag_color("good first issue"@) == Some("LightMagenta"@),
            r.tag_color("help wanted"@) == Some("Green"@),
            r.tag_color("invalid"@) == Some("Yellow"@),
            r.tag_color("question"@) == Some("Magenta"@),
            r.tag_color("wontfix"@) == Some("White"@),
            r.action_of(KeyInput { code: KeyCode::Char('j'), modifiers: KeyModifiers::none_spec() })
                == Some(KeyAction::NextItem),
            r.action_of(KeyInput { code: KeyCode::Char('k'), modifiers: KeyModifiers::none_spec() })
                == Some(KeyAction::PreviousItem),
            r.action_of(KeyInput { code: KeyCode::Tab, modifiers: KeyModifiers::none_spec() })
                == Some(KeyAction::NextView),
            r.action_of(
                KeyInput {
                    code: KeyCode::BackTab,
                    modifiers: KeyModifiers { shift: true, ..KeyModifiers::none_spec() },
                },
            ) == Some(KeyAction::NextItem),
            r.action_of(
                KeyInput {
                    code: KeyCode::Char('j'),
                    modifiers: KeyModifiers { control: true, ..KeyModifiers::none_spec() },
                },
            ) == Some(KeyAction::NextDetailItem),
            r.action_of(
                KeyInput {
                    code: KeyCode::Char('k'),
                    modifiers: KeyModifiers { control: true, ..KeyModifiers::none_spec() },
                },
            ) == Some(KeyAction::PreviousDetailItem),
    {
        let tags = vec![
            (owned("bug"), owned("Red")),
            (owned("documentation"), owned("Blue")),
            (owned("duplicate"), owned("Gray")),
            (owned("enhancement"), owned("LightCyan")),
            (owned("good first issue"), owned("LightMagenta")),
            (owned("help wanted"), owned("Green")),
            (owned("invalid"), owned("Yellow")),
            (owned("question"), owned("Magenta")),
            (owned("wontfix"), owned("White")),
        ];
        let keys = vec![
            (KeyInput { code: KeyCode::Char('j'), modifiers: KeyModifiers::none() }, KeyAction::NextItem),
            (KeyInput { code: KeyCode::Char('k'), modifiers: KeyModifiers::none() }, KeyAction::PreviousItem),
            (KeyInput { code: KeyCode::Tab, modifiers: KeyModifiers::none() }, KeyAction::NextView),
            (KeyInput { code: KeyCode::BackTab, modifiers: KeyModifiers::shift_only() }, KeyAction::NextItem),
            (
                KeyInput { code: KeyCode::Char('j'), modifiers: KeyModifiers::control_only() },
                KeyAction::NextDetailItem,
            ),
            (
                KeyInput { code: KeyCode::Char('k'), modifiers: KeyModifiers::control_only() },
                KeyAction::PreviousDetailItem,
            ),
        ];
        let r = Config {
            github_token: None,
            github_token_path: None,
            gitlab_token: None,
            gitlab_token_path: None,
            gitea_token: None,
            gitea_token_path: None,
            credential_attempts: DEFAULT_CREDENTIAL_ATTEMPTS,
            credential_timeout: DEFAULT_CREDENTIAL_TIMEOUT,
            tag_styles: tags,
            time_fmt: owned("%H:%M %d.%m.%Y"),
            keys,
        };
        proof {
            reveal_strlit("bug");
            reveal_strlit("documentation");
            reveal_strlit("duplicate");
            reveal_strlit("enhancement");
            reveal_strlit("good first issue");
            reveal_strlit("help wanted");
            reveal_strlit("invalid");
            reveal_strlit("question");
            reveal_strlit("wontfix");
            let p = string_pairs(r.tag_styles@);
            assert(p =~= seq![
                ("bug"@, "Red"@),
                ("documentation"@, "Blue"@),
                ("duplicate"@, "Gray"@),
                ("enhancement"@, "LightCyan"@),
                ("good first issue"@, "LightMagenta"@),
                ("help wanted"@, "Green"@),
                ("invalid"@, "Yellow"@),
                ("question"@, "Magenta"@),
                ("wontfix"@, "White"@),
            ]);
            let names = seq![
                "bug"@,
                "documentation"@,
                "duplicate"@,
                "enhancement"@,
                "good first issue"@,
                "help wanted"@,
                "invalid"@,
                "question"@,
                "wontfix"@,
            ];
            assert forall|i: int, j: int| 0 <= i < j < 9 implies p[i].0 != p[j].0 by {
                assert(p[i].0 == names[i] && p[j].0 == names[j]);
                if names[i].len() == names[j].len() {
                    assert(names[i][0] != names[j][0] || names[i][1] != names[j][1]);
                }
            }
            lemma_last_value_at(p, "bug"@, 0);
            lemma_last_value_at(p, "documentation"@, 1);
            lemma_last_value_at(p, "duplicate"@, 2);
            lemma_last_value_at(p, "enhancement"@, 3);
            lemma_last_value_at(p, "good first issue"@, 4);
            lemma_last_value_at(p, "help wanted"@, 5);
            lemma_last_value_at(p, "invalid"@, 6);
            lemma_last_value_at(p, "question"@, 7);
            lemma_last_value_at(p, "wontfix"@, 8);
            let kv = r.keys@;
            lemma_last_value_at(kv, kv[0].0, 0);
            lemma_last_value_at(kv, kv[1].0, 1);
            lemma_last_value_at(kv, kv[2].0, 2);
            lemma_last_value_at(kv, kv[3].0, 3);
            lemma_last_value_at(kv, kv[4].0, 4);
            lemma_last_value_at(kv, kv[5].0, 5);
        }
        r
    }
}

impl Config {
    /// Sets the tag colours that the children of a `tags` node give: each
    /// child names a tag and its colour (white when none is given). A colour
    /// that cannot be read makes the tag white and is reported.
    pub fn read_tag_node(&mut self, tag_node: &ConfigNode) -> (r: Result<(), Vec<ConfigError>>)
        ensures
            forall|t: Seq<char>|
                final(self).tag_color(t) == match last_value(child_tag_colors(tag_node.children@), t) {
                    Some(c) => Some(c),
                    None => old(self).tag_color(t),
                },
            r is Ok <==> forall|i: int|
                0 <= i < tag_node.children@.len() ==> color_of(
                    tag_color_name(tag_node.children@[i]),
                ) is Some,
            forall|k: KeyInput| final(self).action_of(k) == old(self).action_of(k),
            final(self).time_format() == old(self).time_format(),
            final(self).github_token == old(self).github_token,
            final(self).github_token_path == old(self).github_token_path,
            final(self).gitlab_token == old(self).gitlab_token,
            final(self).gitlab_token_path == old(self).gitlab_token_path,
            final(self).gitea_token == old(self).gitea_token,
            final(self).gitea_token_path == old(self).gitea_token_path,
            final(self).credential_attempts == old(self).credential_attempts,
            final(self).credential_timeout == old(self).credential_timeout,
    {
        let ghost start = *self;
        let children = &tag_node.children;
        let mut errors: Vec<ConfigError> = Vec::new();
        let mut i: usize = 0;
        while i < children.len()
            invariant
                i <= children@.len(),
                forall|t: Seq<char>|
                    self.tag_color(t) == match last_value(
                        child_tag_colors(children@.subrange(0, i as int)),
                        t,
                    ) {
                        Some(c) => Some(c),
                        None => start.tag_color(t),
                    },
                (errors@.len() == 0) <==> forall|j: int|
                    0 <= j < i ==> color_of(tag_color_name(children@[j])) is Some,
                forall|k: KeyInput| self.action_of(k) == start.action_of(k),
                self.time_format() == start.time_format(),
                self.github_token == start.github_token,
                self.github_token_path == start.github_token_path,
                self.gitlab_token == start.gitlab_token,
                self.gitlab_token_path == start.gitlab_token_path,
                self.gitea_token == start.gitea_token,
                self.gitea_token_path == start.gitea_token_path,
                self.credential_attempts == start.credential_attempts,
                self.credential_timeout == start.credential_timeout,
            decreases children@.len() - i,
        {
            let child = &children[i];
            let name = match &child.first_string {
                Some(s) => s.as_str(),
                None => "white",
            };
            let color = match canonical_color(name) {
                Some(c) => c,
                None => {
                    errors.push(
                        ConfigError {
                            kind: ConfigErrorKind::ConfigFileNotParsable,
                            error_location: None,
                        },
                    );
                    owned(FALLBACK_COLOR)
                },
            };
            self.set_tag(child.name.clone(), color);
            proof {
                let a = child_tag_colors(children@.subrange(0, i + 1));
                assert(a.drop_last() =~= child_tag_colors(children@.subrange(0, i as int)));
                assert(a.last() == (children@[i as int].name@, child_color(children@[i as int])));
            }
            i += 1;
        }
        proof {
            assert(children@.subrange(0, children@.len() as int) =~= children@);
        }
        if errors.len() == 0 {
            Ok(())
        } else {
            Err(errors)
        }
    }

    /// Sets the key bindings that the `bind` children of a `keys` node make:
    /// `bind "<ctrl>j" "next_item"` binds a key to an action. A malformed
    /// line is reported and skipped; the others still apply.
    pub fn read_keys_node(&mut self, key_node: &ConfigNode) -> (r: Result<(), Vec<ConfigError>>)
        ensures
            forall|k: KeyInput|
                final(self).action_of(k) == match bound_action(key_node.children@, k) {
                    Some(a) => Some(a),
                    None => old(self).action_of(k),
                },
            r is Ok <==> forall|i: int|
                0 <= i < key_node.children@.len() && key_node.children@[i].name@ == BIND_KEY@
                    ==> child_binding(key_node.children@[i]) is Some,
            r is Err ==> r->Err_0@.len() >= malformed_binds(key_node.children@),
            forall|t: Seq<char>| final(self).tag_color(t) == old(self).tag_color(t),
            final(self).time_format() == old(self).time_format(),
            final(self).github_token == old(self).github_token,
            final(self).github_token_path == old(self).github_token_path,
            final(self).gitlab_token == old(self).gitlab_token,
            final(self).gitlab_token_path == old(self).gitlab_token_path,
            final(self).gitea_token == old(self).gitea_token,
            final(self).gitea_token_path == old(self).gitea_token_path,
            final(self).credential_attempts == old(self).credential_attempts,
            final(self).credential_timeout == old(self).credential_timeout,
    {
        let ghost start = *self;
        let children = &key_node.children;
        let mut errors: Vec<ConfigError> = Vec::new();
        let mut i: usize = 0;
        while i < children.len()
            invariant
                i <= children@.len(),
                forall|k: KeyInput|
                    self.action_of(k) == match bound_action(children@.subrange(0, i as int), k) {
                        Some(a) => Some(a),
                        None => start.action_of(k),
                    },
                (errors@.len() == 0) <==> forall|j: int|
                    0 <= j < i && children@[j].name@ == BIND_KEY@ ==> child_binding(children@[j]) is Some,
                errors@.len() >= malformed_binds(children@.subrange(0, i as int)),
                forall|t: Seq<char>| self.tag_color(t) == start.tag_color(t),
                self.time_format() == start.time_format(),
                self.github_token == start.github_token,
                self.github_token_path == start.github_token_path,
                self.gitlab_token == start.gitlab_token,
                self.gitlab_token_path == start.gitlab_token_path,
                self.gitea_token == start.gitea_token,
                self.gitea_token_path == start.gitea_token_path,
                self.credential_attempts == start.credential_attempts,
                self.credential_timeout == start.credential_timeout,
            decreases children@.len() - i,
        {
            let child = &children[i];
            proof {
                let pre = children@.subrange(0, i + 1);
                assert(pre.drop_last() =~= children@.subrange(0, i as int));
                assert(pre.last() == children@[i as int]);
            }
            if str_equal(child.name.as_str(), BIND_KEY) {
                if child.strings.len() == 0 {
                    errors.push(
                        ConfigError {
                            kind: ConfigErrorKind::ExpectedMultipleValues {
                                expected_amount: 2,
                                actual_amount: 0,
                            },
                            error_location: Some(key_node.span),
                        },
                    );
                } else if child.strings.len() == 1 {
                    errors.push(
                        ConfigError {
                            kind: ConfigErrorKind::ExpectedMultipleValues {
                                expected_amount: 2,
                                actual_amount: 1,
                            },
                            error_location: Some(key_node.span),
                        },
                    );
                } else {
                    match KeyAction::parse(child.strings[1].as_str()) {
                        None => {
                            errors.push(
                                ConfigError {
                                    kind: ConfigErrorKind::UnrecognisedAction {
                                        action_name: child.strings[1].clone(),
                                    },
                                    error_location: Some(key_node.span),
                                },
                            );
                        },
                        Some(action) => {
                            match parse_key_event(child.strings[0].as_str(), child.span) {
                                Ok(key_event) => {
                                    self.set_key(key_event, action);
                                },
                                Err(parse_errors) => {
                                    let mut parse_errors = parse_errors;
                                    errors.append(&mut parse_errors);
                                },
                            }
                        },
                    }
                }
            }
            i += 1;
        }
        proof {
            assert(children@.subrange(0, children@.len() as int) =~= children@);
        }
        if errors.len() == 0 {
            Ok(())
        } else {
            Err(errors)
        }
    }

    /// Applies one option node of a configuration file. An unknown option is
    /// reported and changes nothing; an integer option that does not fit
    /// falls back to its default.
    pub fn apply_option(&mut self, node: &ConfigNode) -> (r: Result<(), Vec<ConfigError>>)
        ensures
            ({
                let option = option_named(node.name@);
                &&& option is None ==> r is Err && r->Err_0@.len() == 1 && reports_unknown_option(
                    r->Err_0@[0],
                    node.name@,
                )
                &&& option is Some && option != Some(ConfigOption::Tags) && option != Some(
                    ConfigOption::Keys,
                ) ==> r is Ok
                &&& final(self).github_token == old(self).github_token
                &&& final(self).gitlab_token == old(self).gitlab_token
                &&& final(self).gitea_token == old(self).gitea_token
                &&& final(self).github_token_path == if option == Some(
                    ConfigOption::GithubTokenPath,
                ) {
                    node.first_string
                } else {
                    old(self).github_token_path
                }
                &&& final(self).gitlab_token_path == if option == Some(
                    ConfigOption::GitlabTokenPath,
                ) {
                    node.first_string
                } else {
                    old(self).gitlab_token_path
                }
                &&& final(self).gitea_token_path == if option == Some(ConfigOption::GiteaTokenPath) {
                    node.first_string
                } else {
                    old(self).gitea_token_path
                }
                &&& final(self).credential_attempts == if option == Some(
                    ConfigOption::CredentialsAttempts,
                ) {
                    integer_setting(node.first_integer, DEFAULT_CREDENTIAL_ATTEMPTS)
                } else {
                    old(self).credential_attempts
                }
                &&& final(self).credential_timeout == if option == Some(
                    ConfigOption::CredentialsTimeout,
                ) {
                    integer_setting(node.first_integer, DEFAULT_CREDENTIAL_TIMEOUT)
                } else {
                    old(self).credential_timeout
                }
                &&& final(self).time_format() == if option == Some(ConfigOption::TimeFormat) {
                    match node.first_string {
                        Some(f) => f@,
                        None => Seq::<char>::empty(),
                    }
                } else {
                    old(self).time_format()
                }
                &&& forall|t: Seq<char>|
                    final(self).tag_color(t) == if option == Some(ConfigOption::Tags) {
                        match last_value(child_tag_colors(node.children@), t) {
                            Some(c) => Some(c),
                            None => old(self).tag_color(t),
                        }
                    } else {
                        old(self).tag_color(t)
                    }
                &&& forall|k: KeyInput|
                    final(self).action_of(k) == if option == Some(ConfigOption::Keys) {
                        match bound_action(node.children@, k) {
                            Some(a) => Some(a),
                            None => old(self).action_of(k),
                        }
                    } else {
                        old(self).action_of(k)
                    }
            }),
    {
        match ConfigOption::parse(node.name.as_str()) {
            None => {
                let r = vec![
                    ConfigError {
                        kind: ConfigErrorKind::UnrecognisedOption { option_name: node.name.clone() },
                        error_location: Some(node.span),
                    },
                ];
                Err(r)
            },
            Some(ConfigOption::GithubTokenPath) => {
                self.github_token_path = copy_string_option(&node.first_string);
                Ok(())
            },
            Some(ConfigOption::GitlabTokenPath) => {
                self.gitlab_token_path = copy_string_option(&node.first_string);
                Ok(())
            },
            Some(ConfigOption::GiteaTokenPath) => {
                self.gitea_token_path = copy_string_option(&node.first_string);
                Ok(())
            },
            Some(ConfigOption::CredentialsAttempts) => {
                self.credential_attempts = integer_or(node.first_integer, DEFAULT_CREDENTIAL_ATTEMPTS);
                Ok(())
            },
            Some(ConfigOption::CredentialsTimeout) => {
                self.credential_timeout = integer_or(node.first_integer, DEFAULT_CREDENTIAL_TIMEOUT);
                Ok(())
            },
            Some(ConfigOption::Tags) => self.read_tag_node(node),
            Some(ConfigOption::TimeFormat) => {
                self.time_fmt = match &node.first_string {
                    Some(f) => f.clone(),
                    None => String::new(),
                };
                Ok(())
            },
            Some(ConfigOption::Keys) => self.read_keys_node(node),
        }
    }
}

fn copy_string_option(s: &Option<String>) -> (r: Option<String>)
    ensures
        r == *s,
{
    match s {
        Some(v) => Some(v.clone()),
        None => None,
    }
}

} // verus!
