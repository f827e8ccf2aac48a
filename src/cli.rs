//! Command-line overrides and how they fold into the configuration.

use vstd::prelude::*;
use crate::config::Config;

verus! {

/// Options given on the command line; each one that is set overrides the
/// configuration.
#[derive(Debug, Clone)]
pub struct Args {
    pub rooms: Vec<String>,
    pub output: Option<String>,
    pub monitor: bool,
    pub resolution: Option<u32>,
    pub fps: Option<u32>,
    pub cookies: Option<String>,
    pub user_agent: Option<String>,
    pub max_duration: Option<u32>,
    pub max_filesize: Option<u32>,
    pub check_interval: Option<u64>,
    /// Path of the configuration file.
    pub config: String,
    pub quiet: bool,
    pub debug: bool,
}

/// An override applied to a value: the override when given, else the value.
pub open spec fn overridden<T>(value: T, given: Option<T>) -> T {
    match given {
        Some(v) => v,
        None => value,
    }
}

fn clone_rooms(rooms: &Vec<String>) -> (r: Vec<String>)
    ensures
        r@ == rooms@,
{
    let r = rooms.clone();
    assert(r@ =~= rooms@);
    r
}

impl Args {
    /// Folds the options that are set into `config`: rooms when any are
    /// given, output directory, resolution, framerate, cookies, user agent,
    /// split limits and check interval. Everything else stays.
    pub fn merge_into_config(&self, config: &mut Config)
        ensures
            final(config).monitor.rooms@ == if self.rooms@.len() > 0 {
                self.rooms@
            } else {
                old(config).monitor.rooms@
            },
            final(config).recording.output_directory == overridden(
                old(config).recording.output_directory,
                self.output,
            ),
            final(config).recording.resolution == overridden(old(config).recording.resolution, self.resolution),
            final(config).recording.framerate == overridden(old(config).recording.framerate, self.fps),
            final(config).network.cookies == if self.cookies is Some {
                self.cookies
            } else {
                old(config).network.cookies
            },
            final(config).network.user_agent == if self.user_agent is Some {
                self.user_agent
            } else {
                old(config).network.user_agent
            },
            final(config).recording.max_duration_minutes == overridden(
                old(config).recording.max_duration_minutes,
                self.max_duration,
            ),
            final(config).recording.max_filesize_mb == overridden(
                old(config).recording.max_filesize_mb,
                self.max_filesize,
            ),
            final(config).monitor.check_interval_seconds == overridden(
                old(config).monitor.check_interval_seconds,
                self.check_interval,
            ),
            final(config).recording.filename_pattern == old(config).recording.filename_pattern,
            final(config).monitor.webhook_url == old(config).monitor.webhook_url,
            final(config).network.domain == old(config).network.domain,
    {
        if self.rooms.len() > 0 {
            config.monitor.rooms = clone_rooms(&self.rooms);
        }
        match &self.output {
            Some(o) => {
                config.recording.output_directory = o.clone();
            },
            None => {},
        }
        match self.resolution {
            Some(v) => {
                config.recording.resolution = v;
            },
            None => {},
        }
        match self.fps {
            Some(v) => {
                config.recording.framerate = v;
            },
            None => {},
        }
        match &self.cookies {
            Some(c) => {
                config.network.cookies = Some(c.clone());
            },
            None => {},
        }
        match &self.user_agent {
            Some(u) => {
                config.network.user_agent = Some(u.clone());
            },
            None => {},
        }
        match self.max_duration {
            Some(v) => {
                config.recording.max_duration_minutes = v;
            },
            None => {},
        }
        match self.max_filesize {
            Some(v) => {
                config.recording.max_filesize_mb = v;
            },
            None => {},
        }
        match self.check_interval {
            Some(v) => {
                config.monitor.check_interval_seconds = v;
            },
            None => {},
        }
    }

    /// The rooms to watch: those given on the command line, else those of
    /// the configuration.
    pub fn get_rooms(&self, config: &Config) -> (r: Vec<String>)
        ensures
            r@ == if self.rooms@.len() > 0 {
                self.rooms@
            } else {
                config.monitor.rooms@
            },
    {
        if self.rooms.len() > 0 {
            clone_rooms(&self.rooms)
        } else {
            clone_rooms(&config.monitor.rooms)
        }
    }
}

} // verus!
