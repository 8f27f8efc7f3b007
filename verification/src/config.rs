//! The settings of the server: what a configuration file must hold for the
//! robot to be driven, and what is filled in where a key is missing.

use vstd::prelude::*;

verus! {

/// Where the server listens when the configuration names no address.
pub const DEFAULT_LISTEN: &'static str = "127.0.0.1:8080";

/// The directory of static files when the configuration names none.
pub const DEFAULT_STATIC_DIR: &'static str = "static";

/// The listen address of the preview server when the configuration names
/// none.
pub const DEFAULT_PREVIEW_LISTEN: &'static str = "listen";

/// The raw configuration obtained when parsing the config file.
#[derive(Debug, Clone)]
pub struct RawConfig {
    pub listen: Option<String>,
    pub device: Option<String>,
    pub svg_dir: Option<String>,
    pub static_dir: Option<String>,
    pub interval_seconds: Option<u64>,
}

/// The configuration of a server with a robot attached.
#[derive(Debug, Clone)]
pub struct Config {
    pub listen: String,
    pub device: String,
    pub svg_dir: String,
    pub static_dir: String,
    pub interval_seconds: u64,
}

/// The configuration of a server that only previews drawings.
#[derive(Debug, Clone)]
pub struct PreviewConfig {
    pub listen: String,
    pub static_dir: String,
}

/// The text of a key, or the default where the key is missing.
pub open spec fn text_or(value: Option<String>, default: Seq<char>) -> Seq<char> {
    match value {
        Some(text) => text@,
        None => default,
    }
}

/// The text of a key, or the default where the key is missing.
fn clone_or(value: &Option<String>, default: &str) -> (text: String)
    ensures
        text@ == text_or(*value, default@),
{
    match value {
        Some(text) => text.clone(),
        None => default.to_owned(),
    }
}

impl RawConfig {
    /// The keys without which no robot can be driven are all there: the
    /// device, the directory of drawings and the interval.
    pub open spec fn is_active(self) -> bool {
        self.device.is_some() && self.svg_dir.is_some() && self.interval_seconds.is_some()
    }
}

impl Config {
    /// The configuration of a server with a robot, where the raw
    /// configuration holds the device, the directory of drawings and the
    /// interval; none where one of them is missing. The listen address and
    /// the directory of static files have defaults.
    pub fn from(config: &RawConfig) -> (active: Option<Self>)
        ensures
            active.is_some() == config.is_active(),
            active matches Some(made) ==> {
                &&& made.listen@ == text_or(config.listen, DEFAULT_LISTEN@)
                &&& made.device@ == config.device.unwrap()@
                &&& made.svg_dir@ == config.svg_dir.unwrap()@
                &&& made.static_dir@ == text_or(config.static_dir, DEFAULT_STATIC_DIR@)
                &&& made.interval_seconds == config.interval_seconds.unwrap()
            },
    {
        let listen = clone_or(&config.listen, DEFAULT_LISTEN);
        let device = match &config.device {
            Some(val) => val.clone(),
            None => {
                return None;
            },
        };
        let svg_dir = match &config.svg_dir {
            Some(val) => val.clone(),
            None => {
                return None;
            },
        };
        let static_dir = clone_or(&config.static_dir, DEFAULT_STATIC_DIR);
        let interval_seconds: u64 = match config.interval_seconds {
            Some(val) => val,
            None => {
                return None;
            },
        };
        Some(Self { listen, device, svg_dir, static_dir, interval_seconds })
    }
}

impl PreviewConfig {
    /// The configuration of a preview server: the listen address and the
    /// directory of static files, each with its default.
    pub fn from(config: &RawConfig) -> (preview: Self)
        ensures
            preview.listen@ == text_or(config.listen, DEFAULT_PREVIEW_LISTEN@),
            preview.static_dir@ == text_or(config.static_dir, DEFAULT_STATIC_DIR@),
    {
        Self {
            listen: clone_or(&config.listen, DEFAULT_PREVIEW_LISTEN),
            static_dir: clone_or(&config.static_dir, DEFAULT_STATIC_DIR),
        }
    }
}

} // verus!
