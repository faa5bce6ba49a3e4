//! Which backend address the client uses: an override, the manual address,
//! the backend on the local network where it answers, or the public one.

use vstd::prelude::*;
use crate::api::Reply;
use crate::config::{get_base_url_mode, get_manual_base_url, ConfigFile, DEFAULT_REMOTE_BASE_URL};
use crate::text::{chars_of, drop_trailing, leading_end, string_of, trailing_start, trim_end_of, trimmed, Strip};

verus! {

/// The backend on the local network.
pub const LAN_BASE_URL: &'static str = "http://192.168.0.150:8081";

/// The address that is probed to see whether the local backend answers.
pub const LAN_PROBE_URL: &'static str = "http://192.168.0.150:8081/api/users/me";

/// Seconds the probe may take.
pub const LAN_PROBE_TIMEOUT_SECS: u64 = 2;

/// The public backend.
pub const CLOUDFLARE_URL: &'static str = "https://brandybox.brandstaetter.rocks";

/// An override counts where it is set and not blank.
pub open spec fn override_given(override_url: Option<String>) -> bool {
    override_url is Some && trimmed(override_url->0@).len() > 0
}

/// The settings ask for the manual address.
pub open spec fn manual_mode(cfg: ConfigFile) -> bool {
    cfg.base_url_mode is Some && cfg.base_url_mode->0@ == "manual"@
}

/// The manual address of the settings, or the default where it is blank.
pub open spec fn manual_url(cfg: ConfigFile) -> Seq<char> {
    if cfg.manual_base_url is Some && trimmed(cfg.manual_base_url->0@).len() > 0 {
        trimmed(cfg.manual_base_url->0@)
    } else {
        DEFAULT_REMOTE_BASE_URL@
    }
}

/// The backend address: the override, without white space around it and
/// without trailing `/`; else in manual mode the manual address without
/// trailing `/`; else the local backend where it answers, and the public
/// one where it does not.
pub open spec fn base_url_of(override_url: Option<String>, cfg: ConfigFile, on_lan: bool) -> Seq<
    char,
> {
    if override_given(override_url) {
        drop_trailing(trimmed(override_url->0@), Strip::Char('/'))
    } else if manual_mode(cfg) {
        drop_trailing(manual_url(cfg), Strip::Char('/'))
    } else if on_lan {
        LAN_BASE_URL@
    } else {
        CLOUDFLARE_URL@
    }
}

/// The reply to the probe shows the local backend: it answered 200 or 401.
pub open spec fn shows_lan(reply: Reply) -> bool {
    reply matches Reply::Status { code, .. } && (code == 200 || code == 401)
}

fn trimmed_override(override_url: &Option<String>) -> (r: Option<String>)
    ensures
        r is Some == override_given(*override_url),
        r is Some ==> r->0@ == drop_trailing(trimmed(override_url->0@), Strip::Char('/')),
{
    match override_url {
        None => None,
        Some(u) => {
            let v = chars_of(u.as_str());
            assert(v@.subrange(0, v.len() as int) =~= v@);
            let from = leading_end(&v, 0, v.len(), Strip::Space);
            let to = trailing_start(&v, from, v.len(), Strip::Space);
            if from == to {
                None
            } else {
                let end = trailing_start(&v, from, to, Strip::Char('/'));
                Some(string_of(&v, from, end))
            }
        },
    }
}

/// Whether the address depends on the probe of the local network: there is
/// no override and the mode is not manual.
pub fn needs_lan_probe(override_url: &Option<String>, cfg: &ConfigFile) -> (r: bool)
    ensures
        r == (!override_given(*override_url) && !manual_mode(*cfg)),
{
    if trimmed_override(override_url).is_some() {
        return false;
    }
    let mode = get_base_url_mode(cfg);
    proof {
        reveal_strlit("manual");
        reveal_strlit("automatic");
        assert("manual"@.len() == 6);
        assert("automatic"@.len() == 9);
    }
    let manual = "manual".to_owned();
    !(mode == manual)
}

/// Whether the reply to the probe shows the local backend.
pub fn is_local_network(reply: &Reply) -> (r: bool)
    ensures
        r == shows_lan(*reply),
{
    match reply {
        Reply::Status { code, line: _, body: _ } => *code == 200 || *code == 401,
        _ => false,
    }
}

/// The backend address. `on_lan` tells whether the local backend answered
/// the probe; it is read only where `needs_lan_probe` holds.
pub fn get_base_url(override_url: &Option<String>, cfg: &ConfigFile, on_lan: bool) -> (r: String)
    ensures
        r@ == base_url_of(*override_url, *cfg, on_lan),
{
    match trimmed_override(override_url) {
        Some(u) => {
            return u;
        },
        None => {},
    }
    let mode = get_base_url_mode(cfg);
    proof {
        reveal_strlit("manual");
        reveal_strlit("automatic");
        assert("manual"@.len() == 6);
        assert("automatic"@.len() == 9);
    }
    let word = "manual".to_owned();
    if mode == word {
        let manual = get_manual_base_url(cfg);
        return trim_end_of(manual.as_str(), '/');
    }
    if on_lan {
        LAN_BASE_URL.to_owned()
    } else {
        CLOUDFLARE_URL.to_owned()
    }
}

} // verus!
