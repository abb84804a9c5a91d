//! Decisions behind map and plugin installation and the fixed layout
//! of an install directory: telling remote sources from local ones,
//! extracting a target filename from a URL, the table of known
//! plugins, and the directories the surrounding layer copies into.

use vstd::prelude::*;

use crate::errors::CoreError;
use crate::strutil::{ends_with, spec_ends_with, spec_starts_with, starts_with, str_eq};
use vstd::string::StrSliceExecFns;
use vstd::string::StringExecFns;

verus! {

/// Join one path segment onto a directory with the path separator.
pub fn path_join(dir: &str, name: &str) -> (r: String)
    ensures
        r@ == dir@ + "/"@ + name@,
{
    String::from_str(dir).concat("/").concat(name)
}

/// Where maps of one instance live under its install directory.
pub fn maps_dir(server_path: &str) -> (r: String)
    ensures
        r@ == server_path@ + "/game/csgo/maps"@,
{
    String::from_str(server_path).concat("/game/csgo/maps")
}

/// Where plugins of one instance live under its install directory.
pub fn addons_dir(server_path: &str) -> (r: String)
    ensures
        r@ == server_path@ + "/game/csgo/addons"@,
{
    String::from_str(server_path).concat("/game/csgo/addons")
}

/// The text configuration file of one instance.
pub fn server_cfg_path(server_path: &str) -> (r: String)
    ensures
        r@ == server_path@ + "/server.cfg"@,
{
    String::from_str(server_path).concat("/server.cfg")
}

/// The named backup subdirectory of one instance.
pub fn backup_dir(server_path: &str, backup_name: &str) -> (r: String)
    ensures
        r@ == server_path@ + "/backups/"@ + backup_name@,
{
    String::from_str(server_path).concat("/backups/").concat(backup_name)
}

/// Whether a map or plugin source is remote: an explicit scheme prefix.
pub open spec fn spec_is_remote(s: Seq<char>) -> bool {
    spec_starts_with(s, "http://"@) || spec_starts_with(s, "https://"@)
}

/// Executable counterpart of [`spec_is_remote`].
pub fn is_remote_source(s: &str) -> (r: bool)
    ensures
        r == spec_is_remote(s@),
{
    starts_with(s, "http://") || starts_with(s, "https://")
}

/// Index of the last occurrence of `c`, if any.
pub open spec fn spec_rfind(s: Seq<char>, c: char) -> Option<int>
    decreases s.len(),
{
    if s.len() == 0 {
        None
    } else if s[s.len() - 1] == c {
        Some(s.len() - 1)
    } else {
        spec_rfind(s.drop_last(), c)
    }
}

/// The filename a URL names: everything after the last slash, or the
/// whole text when it has none.
pub open spec fn spec_url_file_name(url: Seq<char>) -> Seq<char> {
    match spec_rfind(url, '/') {
        Some(i) => url.subrange(i + 1, url.len() as int),
        None => url,
    }
}

proof fn lemma_rfind_prefix(s: Seq<char>, c: char, k: int)
    requires
        0 <= k <= s.len(),
        forall|j: int| k <= j < s.len() ==> s[j] != c,
    ensures
        spec_rfind(s, c) == spec_rfind(s.subrange(0, k), c),
    decreases s.len() - k,
{
    if k < s.len() {
        assert(s.drop_last() =~= s.subrange(0, s.len() - 1));
        lemma_rfind_prefix(s.subrange(0, s.len() - 1), c, k);
        assert(s.subrange(0, s.len() - 1).subrange(0, k) =~= s.subrange(0, k));
    } else {
        assert(s.subrange(0, k) =~= s);
    }
}

/// Executable counterpart of [`spec_rfind`].
pub fn rfind_char(s: &str, c: char) -> (r: Option<usize>)
    ensures
        match r {
            Some(i) => i < s@.len() && spec_rfind(s@, c) == Some(i as int),
            None => spec_rfind(s@, c) is None,
        },
{
    let len = s.unicode_len();
    let mut i: usize = len;
    while i > 0
        invariant
            len == s@.len(),
            i <= len,
            forall|j: int| i <= j < len ==> s@[j] != c,
        decreases i,
    {
        if s.get_char(i - 1) == c {
            proof {
                lemma_rfind_prefix(s@, c, i as int);
                let p = s@.subrange(0, i as int);
                assert(p[p.len() - 1] == c);
            }
            return Some(i - 1);
        }
        i = i - 1;
    }
    proof {
        lemma_rfind_prefix(s@, c, 0);
        assert(s@.subrange(0, 0) =~= Seq::<char>::empty());
    }
    None
}

/// Executable counterpart of [`spec_url_file_name`].
pub fn url_file_name(url: &str) -> (r: String)
    ensures
        r@ == spec_url_file_name(url@),
{
    match rfind_char(url, '/') {
        Some(i) => {
            let len = url.unicode_len();
            String::from_str(url.substring_char(i + 1, len))
        },
        None => String::from_str(url),
    }
}

/// The download location of a known plugin name, if it is one.
pub open spec fn spec_known_plugin_url(name: Seq<char>) -> Option<Seq<char>> {
    if name == "sourcemod"@ {
        Some("https://sm.alliedmods.net/smdrop/1.11/sourcemod-1.11.0-git6936-linux.tar.gz"@)
    } else if name == "metamod"@ {
        Some("https://mms.alliedmods.net/mmsdrop/1.11/mmsource-1.11.0-git1148-linux.tar.gz"@)
    } else if name == "steamworks"@ {
        Some("https://github.com/KyleSanderson/SteamWorks/releases/download/1.2.3c/package-lin.tgz"@)
    } else {
        None
    }
}

/// Where to fetch a plugin from: a known name maps to its recorded
/// location, anything with a remote scheme is taken as a direct
/// location, and everything else is `NotFound`.
pub fn resolve_plugin_source(plugin: &str) -> (r: Result<String, CoreError>)
    ensures
        match r {
            Ok(u) => (match spec_known_plugin_url(plugin@) {
                Some(k) => u@ == k,
                None => spec_is_remote(plugin@) && u@ == plugin@,
            }),
            Err(e) => e == CoreError::NotFound && spec_known_plugin_url(plugin@) is None
                && !spec_is_remote(plugin@),
        },
{
    if str_eq(plugin, "sourcemod") {
        Ok(String::from_str(
            "https://sm.alliedmods.net/smdrop/1.11/sourcemod-1.11.0-git6936-linux.tar.gz",
        ))
    } else if str_eq(plugin, "metamod") {
        Ok(String::from_str(
            "https://mms.alliedmods.net/mmsdrop/1.11/mmsource-1.11.0-git1148-linux.tar.gz",
        ))
    } else if str_eq(plugin, "steamworks") {
        Ok(String::from_str(
            "https://github.com/KyleSanderson/SteamWorks/releases/download/1.2.3c/package-lin.tgz",
        ))
    } else if is_remote_source(plugin) {
        Ok(String::from_str(plugin))
    } else {
        Err(CoreError::NotFound)
    }
}

/// Whether a fetched plugin is stored as a compressed archive.
pub open spec fn spec_is_archive_url(url: Seq<char>) -> bool {
    spec_ends_with(url, ".tar.gz"@) || spec_ends_with(url, ".tgz"@)
}

/// The filename a fetched plugin is stored under inside the addons
/// directory: archives keep an archive suffix, anything else is stored
/// under the plugin name itself.
pub fn plugin_archive_file_name(plugin: &str, url: &str) -> (r: String)
    ensures
        r@ == (if spec_is_archive_url(url@) {
            plugin@ + ".tar.gz"@
        } else {
            plugin@
        }),
{
    if ends_with(url, ".tar.gz") || ends_with(url, ".tgz") {
        String::from_str(plugin).concat(".tar.gz")
    } else {
        String::from_str(plugin)
    }
}

} // verus!
