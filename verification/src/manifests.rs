//! Native messaging host manifests for Firefox and Chromium browsers: where
//! each browser looks for them and what they say.

use vstd::prelude::*;
use crate::paths::{path_join, path_join_of};
use crate::text::{push_str, string_from_str};

verus! {

/// Stable host id registered in the browsers (and expected by the extension).
pub const HOST_NAME: &'static str = "com.shard.native_host";

/// Extension id allowed when none is given.
pub const DEFAULT_EXTENSION: &'static str = "shard-extension@swirx";

/// Text of the manifest's `description` field.
pub const HOST_DESCRIPTION: &'static str = "shard download daemon bridge";

/// A browser that discovers native hosts through manifest files.
#[derive(Debug, Clone, Copy, PartialEq, Eq, Structural)]
pub enum Browser {
    Firefox,
    Chrome,
    Chromium,
}

/// The per-user configuration directory: `$XDG_CONFIG_HOME` when set, else
/// `<home>/.config`.
pub fn config_home(xdg_config_home: Option<&str>, home: &str) -> (dir: String)
    ensures
        dir@ == (match xdg_config_home {
            Some(x) => x@,
            None => path_join_of(home@, ".config"@),
        }),
{
    match xdg_config_home {
        Some(x) => string_from_str(x),
        None => path_join(home, ".config"),
    }
}

impl Browser {
    /// The directory this browser reads per-user host manifests from on
    /// Linux, given the home and configuration directories.
    pub fn manifest_dir(self, home: &str, config_home: &str) -> (dir: String)
        ensures
            dir@ == (match self {
                Browser::Firefox => path_join_of(path_join_of(home@, ".mozilla"@), "native-messaging-hosts"@),
                Browser::Chrome => path_join_of(
                    path_join_of(config_home@, "google-chrome"@),
                    "NativeMessagingHosts"@,
                ),
                Browser::Chromium => path_join_of(path_join_of(config_home@, "chromium"@), "NativeMessagingHosts"@),
            }),
    {
        match self {
            Browser::Firefox => {
                let base = path_join(home, ".mozilla");
                path_join(base.as_str(), "native-messaging-hosts")
            },
            Browser::Chrome => {
                let base = path_join(config_home, "google-chrome");
                path_join(base.as_str(), "NativeMessagingHosts")
            },
            Browser::Chromium => {
                let base = path_join(config_home, "chromium");
                path_join(base.as_str(), "NativeMessagingHosts")
            },
        }
    }
}

/// Who may talk to the host: Firefox lists extension ids, Chromium browsers
/// list origins.
#[derive(Debug, Clone)]
pub enum Allowed {
    Extensions(Vec<String>),
    Origins(Vec<String>),
}

/// The content of one browser's host manifest; its `type` is always `stdio`.
#[derive(Debug, Clone)]
pub struct HostManifest {
    pub name: String,
    pub description: String,
    pub path: String,
    pub allowed: Allowed,
}

/// `chrome-extension://<id>/`.
pub open spec fn origin_of(id: Seq<char>) -> Seq<char> {
    "chrome-extension://"@ + id + "/"@
}

/// The extension ids a manifest allows: those given, or the default one
/// when none are.
pub open spec fn allowed_ids(extensions: Seq<String>) -> Seq<Seq<char>> {
    if extensions.len() == 0 {
        seq![DEFAULT_EXTENSION@]
    } else {
        extensions.map_values(|e: String| e@)
    }
}

fn allowed_id_list(extensions: &[String]) -> (ids: Vec<String>)
    ensures
        ids@.map_values(|e: String| e@) == allowed_ids(extensions@),
{
    let mut ids: Vec<String> = Vec::new();
    if extensions.len() == 0 {
        ids.push(string_from_str(DEFAULT_EXTENSION));
        assert(ids@.map_values(|e: String| e@) =~= allowed_ids(extensions@));
        return ids;
    }
    let mut i: usize = 0;
    while i < extensions.len()
        invariant
            i <= extensions@.len(),
            ids@.len() == i,
            forall|k: int| 0 <= k < i ==> #[trigger] ids@[k]@ == extensions@[k]@,
        decreases extensions.len() - i,
    {
        ids.push(string_from_str(extensions[i].as_str()));
        i = i + 1;
    }
    assert(ids@.map_values(|e: String| e@) =~= extensions@.map_values(|e: String| e@));
    ids
}

/// Builds one browser's manifest for the host binary at `host_path`,
/// allowing `extensions` (or the default extension when empty); Chromium
/// browsers get each id as a `chrome-extension://<id>/` origin.
pub fn manifest(browser: Browser, host_path: &str, extensions: &[String]) -> (m: HostManifest)
    ensures
        m.name@ == HOST_NAME@,
        m.description@ == HOST_DESCRIPTION@,
        m.path@ == host_path@,
        match m.allowed {
            Allowed::Extensions(ids) => browser == Browser::Firefox && ids@.map_values(|e: String| e@)
                == allowed_ids(extensions@),
            Allowed::Origins(origins) => browser != Browser::Firefox && origins@.map_values(|e: String| e@)
                == allowed_ids(extensions@).map_values(|id: Seq<char>| origin_of(id)),
        },
{
    let ids = allowed_id_list(extensions);
    let allowed = match browser {
        Browser::Firefox => Allowed::Extensions(ids),
        _ => {
            let mut origins: Vec<String> = Vec::new();
            let mut i: usize = 0;
            while i < ids.len()
                invariant
                    i <= ids@.len(),
                    origins@.len() == i,
                    forall|k: int| 0 <= k < i ==> #[trigger] origins@[k]@ == origin_of(ids@[k]@),
                decreases ids.len() - i,
            {
                let mut o = string_from_str("chrome-extension://");
                push_str(&mut o, ids[i].as_str());
                push_str(&mut o, "/");
                origins.push(o);
                i = i + 1;
            }
            assert(origins@.map_values(|e: String| e@) =~= ids@.map_values(|e: String| origin_of(e@)));
            assert(ids@.map_values(|e: String| origin_of(e@)) =~= allowed_ids(extensions@).map_values(
                |id: Seq<char>| origin_of(id),
            ));
            Allowed::Origins(origins)
        },
    };
    HostManifest {
        name: string_from_str(HOST_NAME),
        description: string_from_str(HOST_DESCRIPTION),
        path: string_from_str(host_path),
        allowed,
    }
}

/// The file a browser's manifest is written to: `<dir>/<HOST_NAME>.json`.
pub fn manifest_file(dir: &str) -> (file: String)
    ensures
        file@ == path_join_of(dir@, HOST_NAME@ + ".json"@),
{
    let mut leaf = string_from_str(HOST_NAME);
    push_str(&mut leaf, ".json");
    path_join(dir, leaf.as_str())
}

} // verus!
