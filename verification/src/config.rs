//! Client configuration: where the configuration lives, and what the
//! settings document says about the sync folder, the backend address,
//! autostart and the settings window.

use vstd::prelude::*;
use crate::listing::text_of;
use crate::text::{
    chars_of, leading_end, skip_leading, string_of, trailing_start, trim, trimmed, Strip,
};

verus! {

/// The backend that is used where no other address is configured.
pub const DEFAULT_REMOTE_BASE_URL: &'static str = "https://brandybox.brandstaetter.rocks";

/// Name of the settings document within the configuration directory.
pub const CONFIG_FILENAME: &'static str = "config.json";

/// Name of the sync state document within the configuration directory.
pub const SYNC_STATE_FILENAME: &'static str = "sync_state.json";

/// Name of the file whose lock marks the running instance.
pub const INSTANCE_LOCK_FILENAME: &'static str = "instance.lock";

/// The settings document. A field that was never set is `None`.
pub struct ConfigFile {
    pub sync_folder: Option<String>,
    pub autostart: Option<bool>,
    pub base_url_mode: Option<String>,
    pub manual_base_url: Option<String>,
    pub settings_window_geometry: Option<String>,
}

/// What the environment says about where configuration lives. `home` is
/// the user's home directory where the host knows one.
pub struct ConfigEnv {
    /// Value of `BRANDYBOX_CONFIG_DIR`.
    pub override_dir: Option<String>,
    /// Whether the host is Windows.
    pub windows: bool,
    /// Value of `APPDATA`.
    pub appdata: Option<String>,
    /// Value of `USERPROFILE`.
    pub userprofile: Option<String>,
    /// Value of `XDG_CONFIG_HOME`.
    pub xdg_config_home: Option<String>,
    pub home: Option<String>,
}

/// `rest` below the directory `base`: an absolute `rest` stands alone, and
/// a `/` is put between the two unless `base` is empty or ends in one.
pub open spec fn joined(base: Seq<char>, rest: Seq<char>) -> Seq<char> {
    if rest.len() > 0 && rest[0] == '/' {
        rest
    } else if base.len() == 0 || base.last() == '/' {
        base + rest
    } else {
        base + seq!['/'] + rest
    }
}

/// A path from the settings with a leading `~` replaced by the home
/// directory, where that is known; white space around the path is dropped.
pub open spec fn tilde_expanded(path: Seq<char>, home: Option<Seq<char>>) -> Seq<char> {
    let s = trimmed(path);
    if s.len() > 0 && s[0] == '~' && home is Some {
        joined(home->0, skip_leading(skip_leading(s, Strip::Char('~')), Strip::Char('/')))
    } else {
        s
    }
}

/// The home directory, or the current directory where none is known.
pub open spec fn home_or_here(home: Option<Seq<char>>) -> Seq<char> {
    match home {
        Some(h) => h,
        None => "."@,
    }
}

/// The configuration directory: the override where it is not blank; else
/// on Windows `BrandyBox` under `APPDATA`, or under `USERPROFILE`; else
/// `brandybox` under `XDG_CONFIG_HOME`, or under `.config` in the home
/// directory.
pub open spec fn config_dir_of(env: ConfigEnv) -> Seq<char> {
    if env.override_dir is Some && trimmed(env.override_dir->0@).len() > 0 {
        tilde_expanded(env.override_dir->0@, text_of(env.home))
    } else if env.windows {
        let base = if env.appdata is Some {
            env.appdata->0@
        } else if env.userprofile is Some {
            env.userprofile->0@
        } else {
            Seq::empty()
        };
        joined(base, "BrandyBox"@)
    } else if env.xdg_config_home is Some {
        joined(env.xdg_config_home->0@, "brandybox"@)
    } else {
        joined(joined(home_or_here(text_of(env.home)), ".config"@), "brandybox"@)
    }
}

/// The folder that is synchronised where the settings name none.
pub open spec fn default_sync_folder(home: Option<Seq<char>>) -> Seq<char> {
    joined(home_or_here(home), "brandyBox"@)
}

/// The folder that is synchronised.
pub open spec fn sync_folder_of(cfg: ConfigFile, home: Option<Seq<char>>) -> Seq<char> {
    if cfg.sync_folder is Some && cfg.sync_folder->0@.len() > 0 {
        tilde_expanded(cfg.sync_folder->0@, home)
    } else {
        default_sync_folder(home)
    }
}

/// `rest` below the directory `base`.
pub fn join_path(base: &str, rest: &str) -> (r: String)
    ensures
        r@ == joined(base@, rest@),
{
    let b = chars_of(base);
    let t = chars_of(rest);
    if t.len() > 0 && t[0] == '/' {
        return rest.to_owned();
    }
    let mut r = base.to_owned();
    if b.len() > 0 && b[b.len() - 1] != '/' {
        r.push('/');
    }
    r.append(rest);
    r
}

/// A path from the settings with a leading `~` replaced by the home
/// directory.
pub fn expand_tilde(path: &str, home: &Option<String>) -> (r: String)
    ensures
        r@ == tilde_expanded(path@, text_of(*home)),
{
    let v = chars_of(path);
    assert(v@.subrange(0, v.len() as int) =~= v@);
    let from = leading_end(&v, 0, v.len(), Strip::Space);
    let to = trailing_start(&v, from, v.len(), Strip::Space);
    let ghost s = trimmed(path@);
    assert(s == v@.subrange(from as int, to as int));
    if from < to && v[from] == '~' {
        match home {
            Some(h) => {
                let a = leading_end(&v, from, to, Strip::Char('~'));
                let b = leading_end(&v, a, to, Strip::Char('/'));
                let rest = string_of(&v, b, to);
                return join_path(h.as_str(), rest.as_str());
            },
            None => {},
        }
    }
    string_of(&v, from, to)
}

/// The directory that holds the settings, the sync state and the lock.
pub fn config_dir(env: &ConfigEnv) -> (r: String)
    ensures
        r@ == config_dir_of(*env),
{
    match &env.override_dir {
        Some(dir) => {
            let s = trim(dir.as_str());
            if !s.as_str().is_empty() {
                return expand_tilde(dir.as_str(), &env.home);
            }
        },
        None => {},
    }
    proof {
        reveal_strlit("");
    }
    if env.windows {
        match &env.appdata {
            Some(a) => join_path(a.as_str(), "BrandyBox"),
            None => match &env.userprofile {
                Some(u) => join_path(u.as_str(), "BrandyBox"),
                None => join_path("", "BrandyBox"),
            },
        }
    } else {
        match &env.xdg_config_home {
            Some(x) => join_path(x.as_str(), "brandybox"),
            None => {
                let base = match &env.home {
                    Some(h) => join_path(h.as_str(), ".config"),
                    None => join_path(".", ".config"),
                };
                join_path(base.as_str(), "brandybox")
            },
        }
    }
}

/// Where the settings document lies.
pub fn get_config_path(env: &ConfigEnv) -> (r: String)
    ensures
        r@ == joined(config_dir_of(*env), CONFIG_FILENAME@),
{
    let dir = config_dir(env);
    join_path(dir.as_str(), CONFIG_FILENAME)
}

/// Where the instance lock lies.
pub fn get_instance_lock_path(env: &ConfigEnv) -> (r: String)
    ensures
        r@ == joined(config_dir_of(*env), INSTANCE_LOCK_FILENAME@),
{
    let dir = config_dir(env);
    join_path(dir.as_str(), INSTANCE_LOCK_FILENAME)
}

/// Where the sync state document lies.
pub fn get_sync_state_path(env: &ConfigEnv) -> (r: String)
    ensures
        r@ == joined(config_dir_of(*env), SYNC_STATE_FILENAME@),
{
    let dir = config_dir(env);
    join_path(dir.as_str(), SYNC_STATE_FILENAME)
}

/// The folder that is synchronised where the settings name none:
/// `brandyBox` in the home directory.
pub fn get_default_sync_folder(home: &Option<String>) -> (r: String)
    ensures
        r@ == default_sync_folder(text_of(*home)),
{
    match home {
        Some(h) => join_path(h.as_str(), "brandyBox"),
        None => join_path(".", "brandyBox"),
    }
}

/// Whether the settings name a sync folder.
pub fn user_has_set_sync_folder(cfg: &ConfigFile) -> (r: bool)
    ensures
        r == (cfg.sync_folder is Some && cfg.sync_folder->0@.len() > 0),
{
    match &cfg.sync_folder {
        Some(s) => !s.as_str().is_empty(),
        None => false,
    }
}

/// The folder that is synchronised: the one the settings name, with `~`
/// expanded, or the default.
pub fn get_sync_folder_path(cfg: &ConfigFile, home: &Option<String>) -> (r: String)
    ensures
        r@ == sync_folder_of(*cfg, text_of(*home)),
{
    match &cfg.sync_folder {
        Some(s) => {
            if !s.as_str().is_empty() {
                return expand_tilde(s.as_str(), home);
            }
        },
        None => {},
    }
    get_default_sync_folder(home)
}

/// Names the sync folder; the other settings stay.
pub fn set_sync_folder_path(cfg: &mut ConfigFile, folder: String)
    ensures
        final(cfg).sync_folder == Some(folder),
        final(cfg).autostart == old(cfg).autostart,
        final(cfg).base_url_mode == old(cfg).base_url_mode,
        final(cfg).manual_base_url == old(cfg).manual_base_url,
        final(cfg).settings_window_geometry == old(cfg).settings_window_geometry,
{
    cfg.sync_folder = Some(folder);
}

/// Whether the client starts with the session: off unless set.
pub fn get_autostart(cfg: &ConfigFile) -> (r: bool)
    ensures
        r == (cfg.autostart == Some(true)),
{
    match cfg.autostart {
        Some(b) => b,
        None => false,
    }
}

/// Sets autostart; the other settings stay.
pub fn set_autostart(cfg: &mut ConfigFile, enabled: bool)
    ensures
        final(cfg).autostart == Some(enabled),
        final(cfg).sync_folder == old(cfg).sync_folder,
        final(cfg).base_url_mode == old(cfg).base_url_mode,
        final(cfg).manual_base_url == old(cfg).manual_base_url,
        final(cfg).settings_window_geometry == old(cfg).settings_window_geometry,
{
    cfg.autostart = Some(enabled);
}

/// How the backend address is found: the mode the settings name, or
/// `automatic`.
pub fn get_base_url_mode(cfg: &ConfigFile) -> (r: String)
    ensures
        r@ == if cfg.base_url_mode is Some && cfg.base_url_mode->0@.len() > 0 {
            cfg.base_url_mode->0@
        } else {
            "automatic"@
        },
{
    match &cfg.base_url_mode {
        Some(m) => {
            if !m.as_str().is_empty() {
                return m.clone();
            }
        },
        None => {},
    }
    "automatic".to_owned()
}

/// Sets the mode; the other settings stay.
pub fn set_base_url_mode(cfg: &mut ConfigFile, mode: String)
    ensures
        final(cfg).base_url_mode == Some(mode),
        final(cfg).sync_folder == old(cfg).sync_folder,
        final(cfg).autostart == old(cfg).autostart,
        final(cfg).manual_base_url == old(cfg).manual_base_url,
        final(cfg).settings_window_geometry == old(cfg).settings_window_geometry,
{
    cfg.base_url_mode = Some(mode);
}

/// The backend address for the manual mode: the one the settings name,
/// without white space around it, or the default where it is blank or
/// missing.
pub fn get_manual_base_url(cfg: &ConfigFile) -> (r: String)
    ensures
        r@ == if cfg.manual_base_url is Some && trimmed(cfg.manual_base_url->0@).len() > 0 {
            trimmed(cfg.manual_base_url->0@)
        } else {
            DEFAULT_REMOTE_BASE_URL@
        },
{
    match &cfg.manual_base_url {
        Some(u) => {
            let t = trim(u.as_str());
            if !t.as_str().is_empty() {
                return t;
            }
        },
        None => {},
    }
    DEFAULT_REMOTE_BASE_URL.to_owned()
}

/// Sets the manual backend address, without white space around it; the
/// other settings stay.
pub fn set_manual_base_url(cfg: &mut ConfigFile, url: String)
    ensures
        final(cfg).manual_base_url is Some,
        final(cfg).manual_base_url->0@ == trimmed(url@),
        final(cfg).sync_folder == old(cfg).sync_folder,
        final(cfg).autostart == old(cfg).autostart,
        final(cfg).base_url_mode == old(cfg).base_url_mode,
        final(cfg).settings_window_geometry == old(cfg).settings_window_geometry,
{
    cfg.manual_base_url = Some(trim(url.as_str()));
}

/// The saved geometry of the settings window, `x,y,width,height`, as it was
/// stored; none where it is blank or missing.
pub fn get_settings_window_geometry(cfg: &ConfigFile) -> (r: Option<String>)
    ensures
        text_of(r) == if cfg.settings_window_geometry is Some && trimmed(
            cfg.settings_window_geometry->0@,
        ).len() > 0 {
            Some(cfg.settings_window_geometry->0@)
        } else {
            None
        },
{
    match &cfg.settings_window_geometry {
        Some(g) => {
            let t = trim(g.as_str());
            if !t.as_str().is_empty() {
                return Some(g.clone());
            }
        },
        None => {},
    }
    None
}

/// Saves the geometry of the settings window, without white space around
/// it; a blank one clears the setting. The other settings stay.
pub fn set_settings_window_geometry(cfg: &mut ConfigFile, geometry: String)
    ensures
        text_of(final(cfg).settings_window_geometry) == if trimmed(geometry@).len() > 0 {
            Some(trimmed(geometry@))
        } else {
            None
        },
        final(cfg).sync_folder == old(cfg).sync_folder,
        final(cfg).autostart == old(cfg).autostart,
        final(cfg).base_url_mode == old(cfg).base_url_mode,
        final(cfg).manual_base_url == old(cfg).manual_base_url,
{
    let s = trim(geometry.as_str());
    if s.as_str().is_empty() {
        cfg.settings_window_geometry = None;
    } else {
        cfg.settings_window_geometry = Some(s);
    }
}

} // verus!
