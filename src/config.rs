//! The user's configuration: defaults, filling in what an older file lacks,
//! and the checks made when it is loaded.
use vstd::prelude::*;
use vstd::string::*;
use crate::text::push_char;

verus! {

/// The version written into a newly built configuration.
pub const VERSION: &'static str = "0.1.0";

/// The file name of the command store inside the configuration directory.
pub const DEFAULT_HOARD_FILE: &'static str = "trove.yml";

/// The file name of the configuration inside its directory.
pub const DEFAULT_HOARD_CONFIG_FILE: &'static str = "config.yml";

/// An RGB colour.
pub type Rgb = (u8, u8, u8);

/// The user's configuration.
#[derive(Debug, Clone, PartialEq, Eq)]
pub struct HoardConfig {
    pub version: String,
    pub default_namespace: String,
    pub trove_path: Option<String>,
    pub query_prefix: String,
    pub primary_color: Option<Rgb>,
    pub secondary_color: Option<Rgb>,
    pub tertiary_color: Option<Rgb>,
    pub command_color: Option<Rgb>,
    /// The character that starts a named parameter.
    pub parameter_token: Option<String>,
    /// The character that ends a named parameter.
    pub parameter_ending_token: Option<String>,
    pub read_from_current_directory: Option<bool>,
    pub sync_server_url: Option<String>,
    pub api_token: Option<String>,
    pub gpt_api_key: Option<String>,
}

/// The reply of the release server: the tag of the latest release.
#[derive(Debug, Clone, PartialEq, Eq)]
pub struct ClientResponse {
    pub tag_name: String,
}

/// The text of an optional string.
pub open spec fn opt_text(o: Option<String>) -> Option<Seq<char>> {
    match o {
        Some(s) => Some(s@),
        None => None,
    }
}

/// A configuration as plain values.
pub struct ConfigView {
    pub version: Seq<char>,
    pub default_namespace: Seq<char>,
    pub trove_path: Option<Seq<char>>,
    pub query_prefix: Seq<char>,
    pub primary_color: Option<Rgb>,
    pub secondary_color: Option<Rgb>,
    pub tertiary_color: Option<Rgb>,
    pub command_color: Option<Rgb>,
    pub parameter_token: Option<Seq<char>>,
    pub parameter_ending_token: Option<Seq<char>>,
    pub read_from_current_directory: Option<bool>,
    pub sync_server_url: Option<Seq<char>>,
    pub api_token: Option<Seq<char>>,
    pub gpt_api_key: Option<Seq<char>>,
}

impl View for HoardConfig {
    type V = ConfigView;

    open spec fn view(&self) -> ConfigView {
        ConfigView {
            version: self.version@,
            default_namespace: self.default_namespace@,
            trove_path: opt_text(self.trove_path),
            query_prefix: self.query_prefix@,
            primary_color: self.primary_color,
            secondary_color: self.secondary_color,
            tertiary_color: self.tertiary_color,
            command_color: self.command_color,
            parameter_token: opt_text(self.parameter_token),
            parameter_ending_token: opt_text(self.parameter_ending_token),
            read_from_current_directory: self.read_from_current_directory,
            sync_server_url: opt_text(self.sync_server_url),
            api_token: opt_text(self.api_token),
            gpt_api_key: opt_text(self.gpt_api_key),
        }
    }
}

/// The default colour of each level: primary, secondary, tertiary, and the
/// command colour for every other level.
pub open spec fn color_of_level(level: u8) -> Rgb {
    if level == 0 {
        (242, 229, 188)
    } else if level == 1 {
        (181, 118, 20)
    } else if level == 2 {
        (50, 48, 47)
    } else {
        (180, 118, 20)
    }
}

/// `file` placed in directory `dir`, with one separator between them.
pub open spec fn join_path(dir: Seq<char>, file: Seq<char>) -> Seq<char> {
    if dir.len() == 0 {
        file
    } else if dir.last() == '/' {
        dir + file
    } else {
        dir.push('/') + file
    }
}

/// The configuration with the first missing setting given its default, in
/// the order colours, store path, parameter delimiters, local-store flag,
/// sync server; unchanged if none is missing.
pub open spec fn fill_first_missing(c: ConfigView, dir: Seq<char>) -> ConfigView {
    if c.primary_color is None {
        ConfigView { primary_color: Some(color_of_level(0)), ..c }
    } else if c.secondary_color is None {
        ConfigView { secondary_color: Some(color_of_level(1)), ..c }
    } else if c.tertiary_color is None {
        ConfigView { tertiary_color: Some(color_of_level(2)), ..c }
    } else if c.command_color is None {
        ConfigView { command_color: Some(color_of_level(3)), ..c }
    } else if c.trove_path is None {
        ConfigView { trove_path: Some(join_path(dir, DEFAULT_HOARD_FILE@)), ..c }
    } else if c.parameter_token is None {
        ConfigView { parameter_token: Some(seq!['#']), ..c }
    } else if c.parameter_ending_token is None {
        ConfigView { parameter_ending_token: Some(seq!['!']), ..c }
    } else if c.read_from_current_directory is None {
        ConfigView { read_from_current_directory: Some(false), ..c }
    } else if c.sync_server_url is None {
        ConfigView { sync_server_url: Some(DEFAULT_SYNC_SERVER_URL@), ..c }
    } else {
        c
    }
}

/// Some setting that has a default is missing.
pub open spec fn has_missing(c: ConfigView) -> bool {
    c.primary_color is None || c.secondary_color is None || c.tertiary_color is None
        || c.command_color is None || c.trove_path is None || c.parameter_token is None
        || c.parameter_ending_token is None || c.read_from_current_directory is None
        || c.sync_server_url is None
}

/// The namespace of a newly built configuration.
pub const DEFAULT_NAMESPACE: &'static str = "default";

/// The prompt in front of the query.
pub const DEFAULT_QUERY_PREFIX: &'static str = "  >";

/// The built-in configuration: namespace `default`, prompt `  >`, the
/// default colours, delimiters `#` and `!`, the local store preferred, the
/// default sync server, no store path and no keys.
pub open spec fn default_view() -> ConfigView {
    ConfigView {
        version: VERSION@,
        default_namespace: DEFAULT_NAMESPACE@,
        trove_path: None,
        query_prefix: DEFAULT_QUERY_PREFIX@,
        primary_color: Some(color_of_level(0)),
        secondary_color: Some(color_of_level(1)),
        tertiary_color: Some(color_of_level(2)),
        command_color: Some(color_of_level(3)),
        parameter_token: Some(seq!['#']),
        parameter_ending_token: Some(seq!['!']),
        read_from_current_directory: Some(true),
        sync_server_url: Some(DEFAULT_SYNC_SERVER_URL@),
        api_token: None,
        gpt_api_key: None,
    }
}

impl Default for HoardConfig {
    fn default() -> (r: HoardConfig)
        ensures
            r@ == default_view(),
    {
        HoardConfig::default_config()
    }
}

/// The address of the default sync server.
pub const DEFAULT_SYNC_SERVER_URL: &'static str = "https://troveserver.herokuapp.com/";

/// `file` placed in directory `dir`, with one separator between them.
pub fn join_path_exec(dir: &str, file: &str) -> (r: String)
    ensures
        r@ == join_path(dir@, file@),
{
    let n = dir.unicode_len();
    let mut r = dir.to_owned();
    if n > 0 && dir.get_char(n - 1) != '/' {
        push_char(&mut r, '/');
    }
    r.append(file);
    r
}

impl HoardConfig {
    /// The configuration of a first run, with the command store at
    /// `hoard_home_path/trove.yml`.
    pub fn new(hoard_home_path: &str) -> (r: HoardConfig)
        ensures
            r@ == (ConfigView {
                trove_path: Some(join_path(hoard_home_path@, DEFAULT_HOARD_FILE@)),
                ..default_view()
            }),
    {
        let mut c = HoardConfig::default_config();
        c.trove_path = Some(join_path_exec(hoard_home_path, DEFAULT_HOARD_FILE));
        c
    }

    /// The built-in configuration.
    pub fn default_config() -> (r: HoardConfig)
        ensures
            r@ == default_view(),
    {
        HoardConfig {
            version: VERSION.to_owned(),
            default_namespace: DEFAULT_NAMESPACE.to_owned(),
            trove_path: None,
            query_prefix: DEFAULT_QUERY_PREFIX.to_owned(),
            primary_color: Some(HoardConfig::default_colors(0)),
            secondary_color: Some(HoardConfig::default_colors(1)),
            tertiary_color: Some(HoardConfig::default_colors(2)),
            command_color: Some(HoardConfig::default_colors(3)),
            parameter_token: Some(HoardConfig::default_parameter_token()),
            parameter_ending_token: Some(HoardConfig::default_ending_parameter_token()),
            read_from_current_directory: Some(HoardConfig::default_read_from_current_directory()),
            sync_server_url: Some(HoardConfig::default_sync_server_url()),
            api_token: None,
            gpt_api_key: None,
        }
    }

    /// The built-in start delimiter of a named parameter.
    pub fn default_parameter_token() -> (r: String)
        ensures
            r@ == seq!['#'],
    {
        let mut s = String::new();
        push_char(&mut s, '#');
        s
    }

    /// The built-in end delimiter of a named parameter.
    pub fn default_ending_parameter_token() -> (r: String)
        ensures
            r@ == seq!['!'],
    {
        let mut s = String::new();
        push_char(&mut s, '!');
        s
    }

    /// The address of the built-in sync server.
    pub fn default_sync_server_url() -> (r: String)
        ensures
            r@ == DEFAULT_SYNC_SERVER_URL@,
    {
        DEFAULT_SYNC_SERVER_URL.to_owned()
    }

    /// Whether a command store in the working directory is preferred, by
    /// default.
    pub fn default_read_from_current_directory() -> (r: bool)
        ensures
            r,
    {
        true
    }

    /// The default colour of a level.
    pub fn default_colors(color_level: u8) -> (r: Rgb)
        ensures
            r == color_of_level(color_level),
    {
        match color_level {
            0 => (242, 229, 188),
            1 => (181, 118, 20),
            2 => (50, 48, 47),
            _ => (180, 118, 20),
        }
    }
}

/// Why a configuration cannot be used.
#[derive(Debug, Clone, Copy, PartialEq, Eq)]
pub enum ConfigError {
    /// The start and end delimiters of a parameter are the same text.
    DelimiterCollision,
    /// The configured start delimiter is not one character.
    InvalidStartDelimiter,
    /// The end delimiter is longer than one character.
    InvalidEndDelimiter,
}

/// The start delimiter text in effect: the configured one, or `#` when none
/// is configured.
pub open spec fn start_text(c: ConfigView) -> Seq<char> {
    match c.parameter_token {
        Some(t) => t,
        None => seq!['#'],
    }
}

/// The parameter delimiters of a configuration: the start character (`#`
/// when none is configured) and, if one is set, the end character. An empty
/// end delimiter means none. An end delimiter equal to the start one is a
/// collision; a configured start that is not one character, or an end longer
/// than one, is malformed.
pub open spec fn delimiters_of(c: ConfigView) -> Result<(char, Option<char>), ConfigError> {
    let s = start_text(c);
    let e = c.parameter_ending_token;
    if e is Some && s.len() > 0 && s == e->0 {
        Err(ConfigError::DelimiterCollision)
    } else if s.len() != 1 {
        Err(ConfigError::InvalidStartDelimiter)
    } else if e is Some && e->0.len() > 1 {
        Err(ConfigError::InvalidEndDelimiter)
    } else {
        Ok((s[0], if e is Some && e->0.len() == 1 { Some(e->0[0]) } else { None }))
    }
}

/// The first character of a one-character text, if it is one.
fn single_char(o: &Option<String>) -> (r: (bool, usize, char))
    ensures
        r.0 == (o is Some),
        r.0 ==> r.1 == opt_text(*o)->0.len(),
        r.0 && r.1 >= 1 ==> r.2 == opt_text(*o)->0[0],
{
    match o {
        Some(s) => {
            let n = s.as_str().unicode_len();
            if n >= 1 {
                (true, n, s.as_str().get_char(0))
            } else {
                (true, n, ' ')
            }
        },
        None => (false, 0, ' '),
    }
}

/// The parameter delimiters of `config`, or why they cannot be used: the
/// start and end texts are equal and not empty, the start is not one
/// character, or the end is longer than one.
pub fn parameter_delimiters(config: &HoardConfig) -> (r: Result<(char, Option<char>), ConfigError>)
    ensures
        r == delimiters_of(config@),
{
    let start = match &config.parameter_token {
        Some(t) => t.clone(),
        None => HoardConfig::default_parameter_token(),
    };
    let (_, ns, cs) = single_char(&Some(start.clone()));
    let (has_e, ne, ce) = single_char(&config.parameter_ending_token);
    if ns > 0 {
        let same = match &config.parameter_ending_token {
            Some(b) => start == *b,
            None => false,
        };
        if same {
            return Err(ConfigError::DelimiterCollision);
        }
    }
    if ns != 1 {
        return Err(ConfigError::InvalidStartDelimiter);
    }
    if has_e && ne > 1 {
        return Err(ConfigError::InvalidEndDelimiter);
    }
    Ok((cs, if has_e && ne == 1 { Some(ce) } else { None }))
}

/// Gives the first missing setting its default (see `fill_first_missing`)
/// and tells whether one was missing, so that the file is to be written
/// again.
pub fn append_missing_default_values_to_config(loaded_config: &mut HoardConfig, hoard_dir: &str) -> (r: bool)
    ensures
        final(loaded_config)@ == fill_first_missing(old(loaded_config)@, hoard_dir@),
        r == has_missing(old(loaded_config)@),
{
    if loaded_config.primary_color.is_none() {
        loaded_config.primary_color = Some(HoardConfig::default_colors(0));
    } else if loaded_config.secondary_color.is_none() {
        loaded_config.secondary_color = Some(HoardConfig::default_colors(1));
    } else if loaded_config.tertiary_color.is_none() {
        loaded_config.tertiary_color = Some(HoardConfig::default_colors(2));
    } else if loaded_config.command_color.is_none() {
        loaded_config.command_color = Some(HoardConfig::default_colors(3));
    } else if loaded_config.trove_path.is_none() {
        loaded_config.trove_path = Some(join_path_exec(hoard_dir, DEFAULT_HOARD_FILE));
    } else if loaded_config.parameter_token.is_none() {
        loaded_config.parameter_token = Some(HoardConfig::default_parameter_token());
    } else if loaded_config.parameter_ending_token.is_none() {
        loaded_config.parameter_ending_token = Some(HoardConfig::default_ending_parameter_token());
    } else if loaded_config.read_from_current_directory.is_none() {
        loaded_config.read_from_current_directory = Some(false);
    } else if loaded_config.sync_server_url.is_none() {
        loaded_config.sync_server_url = Some(HoardConfig::default_sync_server_url());
    } else {
        return false;
    }
    true
}

/// What a configuration read from disk becomes before use, once its missing
/// settings have been filled in and saved: the store in the working
/// directory is taken when it exists and the configuration prefers it.
pub open spec fn prepared(c: ConfigView, local_store_exists: bool) -> ConfigView {
    if c.read_from_current_directory == Some(true) && local_store_exists {
        ConfigView { trove_path: Some(DEFAULT_HOARD_FILE@), ..c }
    } else {
        c
    }
}

/// Readies a configuration read from disk (see `prepared`) and checks its
/// parameter delimiters (see `delimiters_of`): returns them, or why the
/// configuration cannot be used. Equal start and end delimiters refuse it.
pub fn prepare_loaded_config(config: &mut HoardConfig, local_store_exists: bool) -> (r: Result<
    (char, Option<char>),
    ConfigError,
>)
    ensures
        final(config)@ == prepared(old(config)@, local_store_exists),
        r == delimiters_of(final(config)@),
        ({
            let p = final(config)@;
            p.parameter_token is Some && p.parameter_ending_token is Some
                && p.parameter_token->0.len() > 0 && p.parameter_token == p.parameter_ending_token
        }) ==> r == Err::<(char, Option<char>), ConfigError>(ConfigError::DelimiterCollision),
        old(config)@.parameter_token is None && (old(config)@.parameter_ending_token is None
            || old(config)@.parameter_ending_token == Some(seq!['!'])) ==> r == Ok::<
            (char, Option<char>),
            ConfigError,
        >(('#', if old(config)@.parameter_ending_token is None { None } else { Some('!') })),
{
    if config.read_from_current_directory == Some(true) && local_store_exists {
        config.trove_path = Some(DEFAULT_HOARD_FILE.to_owned());
    }
    assert(seq!['#'][0] != seq!['!'][0]);
    parameter_delimiters(config)
}

} // verus!
