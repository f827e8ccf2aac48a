//! Resolved configuration that the recorder and the monitor are given.

use vstd::prelude::*;
use crate::text::{chars_of, ends_with, ends_with_exec};

verus! {

/// Everything that shapes a recording.
#[derive(Debug, Clone)]
pub struct RecordingConfig {
    pub output_directory: String,
    /// File name template; see `paths::expand_filename` for its placeholders.
    pub filename_pattern: String,
    /// Split after this many minutes of media in one file; 0 never splits on duration.
    pub max_duration_minutes: u32,
    /// Split once one file holds this many megabytes; 0 never splits on size.
    pub max_filesize_mb: u32,
    /// Target height of the picture.
    pub resolution: u32,
    /// Target frames per second.
    pub framerate: u32,
}

/// Settings of the watch over many rooms.
#[derive(Debug, Clone)]
pub struct MonitorConfig {
    pub check_interval_seconds: u64,
    pub rooms: Vec<String>,
    /// Where alerts about credentials are posted, if anywhere.
    pub webhook_url: Option<String>,
}

/// How requests present themselves to the site.
#[derive(Debug, Clone)]
pub struct NetworkConfig {
    pub user_agent: Option<String>,
    pub cookies: Option<String>,
    pub domain: String,
}

#[derive(Debug, Clone)]
pub struct Config {
    pub recording: RecordingConfig,
    pub monitor: MonitorConfig,
    pub network: NetworkConfig,
}

/// Interval between two polls of a media playlist, in milliseconds.
pub const POLL_INTERVAL_MS: u64 = 1000;

pub fn default_output_directory() -> (r: String)
    ensures
        r@ == "./recordings"@,
{
    "./recordings".to_owned()
}

pub fn default_filename_pattern() -> (r: String)
    ensures
        r@ == "{{.Username}}_{{.Year}}-{{.Month}}-{{.Day}}_{{.Hour}}-{{.Minute}}-{{.Second}}"@,
{
    "{{.Username}}_{{.Year}}-{{.Month}}-{{.Day}}_{{.Hour}}-{{.Minute}}-{{.Second}}".to_owned()
}

pub fn default_resolution() -> (r: u32)
    ensures
        r == 1080,
{
    1080
}

pub fn default_framerate() -> (r: u32)
    ensures
        r == 30,
{
    30
}

pub fn default_check_interval() -> (r: u64)
    ensures
        r == 60,
{
    60
}

pub fn default_domain() -> (r: String)
    ensures
        r@ == "https://chaturbate.com/"@,
{
    "https://chaturbate.com/".to_owned()
}

impl Default for RecordingConfig {
    fn default() -> (r: RecordingConfig)
        ensures
            r.output_directory@ == "./recordings"@,
            r.filename_pattern@
                == "{{.Username}}_{{.Year}}-{{.Month}}-{{.Day}}_{{.Hour}}-{{.Minute}}-{{.Second}}"@,
            r.max_duration_minutes == 0,
            r.max_filesize_mb == 0,
            r.resolution == 1080,
            r.framerate == 30,
    {
        RecordingConfig {
            output_directory: default_output_directory(),
            filename_pattern: default_filename_pattern(),
            max_duration_minutes: 0,
            max_filesize_mb: 0,
            resolution: default_resolution(),
            framerate: default_framerate(),
        }
    }
}

impl Default for MonitorConfig {
    fn default() -> (r: MonitorConfig)
        ensures
            r.check_interval_seconds == 60,
            r.rooms@.len() == 0,
            r.webhook_url is None,
    {
        MonitorConfig { check_interval_seconds: default_check_interval(), rooms: Vec::new(), webhook_url: None }
    }
}

impl Default for NetworkConfig {
    fn default() -> (r: NetworkConfig)
        ensures
            r.user_agent is None,
            r.cookies is None,
            r.domain@ == "https://chaturbate.com/"@,
    {
        NetworkConfig { user_agent: None, cookies: None, domain: default_domain() }
    }
}

impl Default for Config {
    fn default() -> (r: Config)
        ensures
            r.recording.output_directory@ == "./recordings"@,
            r.recording.max_duration_minutes == 0,
            r.recording.max_filesize_mb == 0,
            r.recording.resolution == 1080,
            r.recording.framerate == 30,
            r.monitor.check_interval_seconds == 60,
            r.monitor.rooms@.len() == 0,
            r.network.domain@ == "https://chaturbate.com/"@,
            r.network.cookies is None,
            r.network.user_agent is None,
    {
        Config {
            recording: RecordingConfig::default(),
            monitor: MonitorConfig::default(),
            network: NetworkConfig::default(),
        }
    }
}

/// `domain` with a `/` appended unless it already ends with one.
pub open spec fn with_trailing_slash(domain: Seq<char>) -> Seq<char> {
    if ends_with(domain, "/"@) {
        domain
    } else {
        domain + "/"@
    }
}

impl NetworkConfig {
    pub fn domain_with_trailing_slash(&self) -> (r: String)
        ensures
            r@ == with_trailing_slash(self.domain@),
    {
        let d = chars_of(self.domain.as_str());
        let slash = chars_of("/");
        if ends_with_exec(&d, &slash) {
            self.domain.clone()
        } else {
            self.domain.clone().concat("/")
        }
    }
}

impl RecordingConfig {
    /// The fixed interval between two polls of the media playlist.
    pub fn poll_interval_ms(&self) -> (r: u64)
        ensures
            r == POLL_INTERVAL_MS,
    {
        POLL_INTERVAL_MS
    }
}

} // verus!
