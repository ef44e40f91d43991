//! The configuration consumed by the lifecycle operations: the game's name,
//! an optional instance, the directory roots for game files, backups, temp
//! files and default config templates, the default password, and per-game
//! sub-configurations.
//!
//! Paths are plain strings; a leading tilde is expanded to the user's home
//! directory when a directory is derived from a root. Loading and persisting
//! the configuration file is I/O and happens outside this library.

use vstd::prelude::*;
use vstd::string::StringExecFns;

verus! {

/// A path starts with a tilde that the expander replaces: a lone `~` or a
/// `~/` prefix.
pub open spec fn tilde_prefixed(s: Seq<char>) -> bool {
    s.len() >= 1 && s[0] == '~' && (s.len() == 1 || s[1] == '/')
}

/// What tilde expansion can yield: input without a tilde prefix is returned
/// unchanged; input with one has the tilde replaced by some prefix (the home
/// directory, or the tilde itself when no home directory is available).
pub open spec fn expands_to(orig: Seq<char>, result: Seq<char>) -> bool {
    if tilde_prefixed(orig) {
        exists|h: Seq<char>| result == h + orig.skip(1)
    } else {
        result == orig
    }
}

/// Relies on shellexpand's `tilde`: a leading `~`, alone or before `/`, is
/// replaced by the home directory when one is available, and the input is
/// returned unchanged otherwise (no home directory, or a `~user` form, or no
/// tilde at all).
#[verifier::external_body]
fn tilde_expanded(path: &str) -> (r: String)
    ensures
        expands_to(path@, r@),
{
    shellexpand::tilde(path).into_owned()
}

/// Expand a leading tilde in a path to the user's home directory.
pub fn expand(path: &String) -> (r: String)
    ensures
        expands_to(path@, r@),
{
    tilde_expanded(path.as_str())
}

/// Expand a leading tilde in a path to the user's home directory.
pub fn expand_home(path: &str) -> (r: String)
    ensures
        expands_to(path@, r@),
{
    tilde_expanded(path)
}

/// Join a path and a relative component with a single separator: an empty
/// base yields the component, a base already ending in `/` is not given a
/// second one.
pub open spec fn join_seq(base: Seq<char>, sub: Seq<char>) -> Seq<char> {
    if base.len() == 0 {
        sub
    } else if base.last() == '/' {
        base + sub
    } else {
        base + "/"@ + sub
    }
}

/// Join a path and a relative component with a single separator.
pub fn join_path(base: &str, sub: &str) -> (r: String)
    ensures
        r@ == join_seq(base@, sub@),
{
    let mut s = String::new();
    s.append(base);
    let n = base.unicode_len();
    if n > 0 {
        let last = base.get_char(n - 1);
        if last != '/' {
            s.append("/");
        }
    }
    s.append(sub);
    proof {
        assert(s@ =~= join_seq(base@, sub@));
    }
    s
}

/// Settings for the CS:GO server.
pub struct CsGo {
    /// The game server login token.
    pub login_token: String,
}

/// Settings for the Garry's Mod server.
pub struct Garrys {
    /// The Steam web API key handed to the server process's environment.
    pub steam_web_api_key: String,
}

/// Settings for the Terraria server.
pub struct Terraria {
    /// The server port.
    pub port: usize,
    /// The location of the Terraria world file.
    pub world_file: String,
    /// The name of the world.
    pub world_name: String,
}

impl Terraria {
    /// The world file location, with a leading tilde expanded.
    pub fn world_path(&self) -> (r: String)
        ensures
            expands_to(self.world_file@, r@),
    {
        expand(&self.world_file)
    }
}

/// Settings for the CoD4 server.
pub struct Cod4 {
    /// The location of the default server config template.
    pub default_config: String,
    /// The location of the promod server config template.
    pub promod_config: String,
}

impl Cod4 {
    /// The default config location, with a leading tilde expanded.
    pub fn default_config_path(&self) -> (r: String)
        ensures
            expands_to(self.default_config@, r@),
    {
        expand(&self.default_config)
    }

    /// The promod config location, with a leading tilde expanded.
    pub fn promod_config_path(&self) -> (r: String)
        ensures
            expands_to(self.promod_config@, r@),
    {
        expand(&self.promod_config)
    }
}

/// Settings for the Factorio server.
pub struct Factorio {
    /// The location of the Factorio server config template.
    pub server_config_file: String,
}

impl Factorio {
    /// The server config location, with a leading tilde expanded.
    pub fn server_config(&self) -> (r: String)
        ensures
            expands_to(self.server_config_file@, r@),
    {
        expand(&self.server_config_file)
    }
}

/// The configuration of one game-server installation.
pub struct Config {
    /// The name of the game this config is currently used with.
    pub game_name: String,
    /// The selected instance, for games with several concurrent worlds.
    pub instance: Option<String>,
    /// The root directory for all game files.
    pub game_file_root: String,
    /// The root directory where games write their backups.
    pub backup_file_root: String,
    /// A temporary directory used during updates and other tasks.
    pub temp_file_root: String,
    /// The location of the default config templates.
    pub default_config_root: String,
    /// The default password used by these game servers.
    pub default_password: String,
    /// For Steam games, the ID used as the admin.
    pub admin_steam_id: String,
    /// Game-specific sub-configuration.
    pub cs_go: CsGo,
    /// Game-specific sub-configuration.
    pub garrys: Garrys,
    /// Game-specific sub-configuration.
    pub terraria: Terraria,
}

/// The session name derived from a config: the game name, or
/// `{game_name}-{instance}` when an instance is selected.
pub open spec fn session_name_seq(c: Config) -> Seq<char> {
    match c.instance {
        Some(i) => c.game_name@ + "-"@ + i@,
        None => c.game_name@,
    }
}

/// The per-game sub-path derived from a config: the game name, or
/// `{game_name}/{instance}` when an instance is selected.
pub open spec fn subpath_seq(c: Config) -> Seq<char> {
    match c.instance {
        Some(i) => join_seq(c.game_name@, i@),
        None => c.game_name@,
    }
}

/// A directory derived from a configured root: the root with its tilde
/// expanded, joined with the config's per-game sub-path.
pub open spec fn derived_dir(root: Seq<char>, c: Config, result: Seq<char>) -> bool {
    exists|b: Seq<char>| expands_to(root, b) && result == join_seq(b, subpath_seq(c))
}

impl Config {
    /// The session name for this game: either `game_name` or
    /// `{game_name}-{instance}` if an instance is selected.
    pub fn session_name(&self) -> (r: String)
        ensures
            r@ == session_name_seq(*self),
    {
        match &self.instance {
            Some(i) => {
                let mut s = String::new();
                s.append(self.game_name.as_str());
                s.append("-");
                s.append(i.as_str());
                proof {
                    assert(s@ =~= session_name_seq(*self));
                }
                s
            },
            None => self.game_name.clone(),
        }
    }

    /// The sub-path for this game: either `game_name` or
    /// `{game_name}/{instance}` if an instance is selected.
    pub fn game_subpath(&self) -> (r: String)
        ensures
            r@ == subpath_seq(*self),
    {
        match &self.instance {
            Some(i) => join_path(self.game_name.as_str(), i.as_str()),
            None => self.game_name.clone(),
        }
    }

    /// The game file root, with a leading tilde expanded.
    pub fn game_root(&self) -> (r: String)
        ensures
            expands_to(self.game_file_root@, r@),
    {
        expand(&self.game_file_root)
    }

    /// The default config template directory, with a leading tilde expanded.
    pub fn default_config_dir(&self) -> (r: String)
        ensures
            expands_to(self.default_config_root@, r@),
    {
        expand(&self.default_config_root)
    }

    /// The backup root, with a leading tilde expanded.
    pub fn backup_root(&self) -> (r: String)
        ensures
            expands_to(self.backup_file_root@, r@),
    {
        expand(&self.backup_file_root)
    }

    /// The temp file root, with a leading tilde expanded.
    pub fn temp_root(&self) -> (r: String)
        ensures
            expands_to(self.temp_file_root@, r@),
    {
        expand(&self.temp_file_root)
    }

    /// This game's directory under the game file root.
    pub fn game_dir(&self) -> (r: String)
        ensures
            derived_dir(self.game_file_root@, *self, r@),
    {
        let root = self.game_root();
        let sub = self.game_subpath();
        join_path(root.as_str(), sub.as_str())
    }

    /// This game's directory under the game file root, as a string.
    pub fn game_dir_str(&self) -> (r: String)
        ensures
            derived_dir(self.game_file_root@, *self, r@),
    {
        self.game_dir()
    }

    /// This game's backup directory under the backup root.
    pub fn backup_dir(&self) -> (r: String)
        ensures
            derived_dir(self.backup_file_root@, *self, r@),
    {
        let root = self.backup_root();
        let sub = self.game_subpath();
        join_path(root.as_str(), sub.as_str())
    }

    /// This game's backup directory under the backup root, as a string.
    pub fn backup_dir_str(&self) -> (r: String)
        ensures
            derived_dir(self.backup_file_root@, *self, r@),
    {
        self.backup_dir()
    }

    /// This game's temp directory under the temp file root.
    pub fn temp_dir(&self) -> (r: String)
        ensures
            derived_dir(self.temp_file_root@, *self, r@),
    {
        let root = self.temp_root();
        let sub = self.game_subpath();
        join_path(root.as_str(), sub.as_str())
    }

    /// This game's temp directory under the temp file root, as a string.
    pub fn temp_dir_str(&self) -> (r: String)
        ensures
            derived_dir(self.temp_file_root@, *self, r@),
    {
        self.temp_dir()
    }
}

} // verus!
