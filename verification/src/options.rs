//! The fully resolved run configuration, immutable for the run's
//! duration. Flag parsing and environment overlays happen in the
//! surrounding binary; profiles combine through [`Options::combine`].

use vstd::prelude::*;

verus! {

/// Which segments are enabled, and how they are rendered.
pub struct Options {
    pub user: bool,
    pub realname: bool,
    pub hostname: bool,
    pub device_name: bool,
    pub distro: bool,
    pub pwd: bool,
    pub full_pwd: bool,
    pub vcs: bool,
    pub ssh: bool,
    pub os: bool,
    pub virt: bool,
    pub netif: bool,
    pub netns: bool,
    pub memory: bool,
    pub huge_pages: bool,
    pub manifest: bool,
    pub duration: bool,
    pub exit_code: Option<u8>,
    pub timings: bool,
    pub theme: Option<String>,
    pub nerd_font: bool,
    pub profile: Option<String>,
}

pub open spec fn opt_u8_or(a: Option<u8>, b: Option<u8>) -> Option<u8> {
    match a {
        Some(x) => Some(x),
        None => b,
    }
}

pub open spec fn opt_string_or(a: Option<String>, b: Option<String>) -> Option<String> {
    match a {
        Some(x) => Some(x),
        None => b,
    }
}

/// The left operand when set, else the right.
fn or_string(a: &Option<String>, b: &Option<String>) -> (r: Option<String>)
    ensures
        r == opt_string_or(*a, *b),
{
    match a {
        Some(x) => Some(x.clone()),
        None => match b {
            Some(y) => Some(y.clone()),
            None => None,
        },
    }
}

impl Options {
    /// Picks the Nerd-Font glyph when Nerd Fonts are enabled, the
    /// plain form otherwise.
    pub fn select_str<'a>(&self, normal: &'a str, nerd: &'a str) -> (r: &'a str)
        ensures
            r@ == (if self.nerd_font {
                nerd@
            } else {
                normal@
            }),
    {
        if self.nerd_font {
            nerd
        } else {
            normal
        }
    }

    /// Overlays a profile: a flag is on when either side enables it,
    /// and the left side wins for the optional values.
    pub fn combine(&self, other: &Options) -> (r: Options)
        ensures
            r.user == (self.user || other.user),
            r.realname == (self.realname || other.realname),
            r.hostname == (self.hostname || other.hostname),
            r.device_name == (self.device_name || other.device_name),
            r.distro == (self.distro || other.distro),
            r.pwd == (self.pwd || other.pwd),
            r.full_pwd == (self.full_pwd || other.full_pwd),
            r.vcs == (self.vcs || other.vcs),
            r.ssh == (self.ssh || other.ssh),
            r.os == (self.os || other.os),
            r.virt == (self.virt || other.virt),
            r.netif == (self.netif || other.netif),
            r.netns == (self.netns || other.netns),
            r.memory == (self.memory || other.memory),
            r.huge_pages == (self.huge_pages || other.huge_pages),
            r.manifest == (self.manifest || other.manifest),
            r.duration == (self.duration || other.duration),
            r.exit_code == opt_u8_or(self.exit_code, other.exit_code),
            r.timings == (self.timings || other.timings),
            r.theme == opt_string_or(self.theme, other.theme),
            r.nerd_font == (self.nerd_font || other.nerd_font),
            r.profile == opt_string_or(self.profile, other.profile),
    {
        let exit_code = match self.exit_code {
            Some(x) => Some(x),
            None => other.exit_code,
        };
        let theme = or_string(&self.theme, &other.theme);
        let profile = or_string(&self.profile, &other.profile);
        Options {
            user: self.user || other.user,
            realname: self.realname || other.realname,
            hostname: self.hostname || other.hostname,
            device_name: self.device_name || other.device_name,
            distro: self.distro || other.distro,
            pwd: self.pwd || other.pwd,
            full_pwd: self.full_pwd || other.full_pwd,
            vcs: self.vcs || other.vcs,
            ssh: self.ssh || other.ssh,
            os: self.os || other.os,
            virt: self.virt || other.virt,
            netif: self.netif || other.netif,
            netns: self.netns || other.netns,
            memory: self.memory || other.memory,
            huge_pages: self.huge_pages || other.huge_pages,
            manifest: self.manifest || other.manifest,
            duration: self.duration || other.duration,
            exit_code,
            timings: self.timings || other.timings,
            theme,
            nerd_font: self.nerd_font || other.nerd_font,
            profile,
        }
    }
}

impl Default for Options {
    /// Everything off, nothing set.
    fn default() -> (r: Options)
        ensures
            !r.user && !r.realname && !r.hostname && !r.device_name && !r.distro && !r.pwd
                && !r.full_pwd && !r.vcs && !r.ssh && !r.os && !r.virt && !r.netif && !r.netns
                && !r.memory && !r.huge_pages && !r.manifest && !r.duration && !r.timings
                && !r.nerd_font,
            r.exit_code is None,
            r.theme is None,
            r.profile is None,
    {
        Options {
            user: false,
            realname: false,
            hostname: false,
            device_name: false,
            distro: false,
            pwd: false,
            full_pwd: false,
            vcs: false,
            ssh: false,
            os: false,
            virt: false,
            netif: false,
            netns: false,
            memory: false,
            huge_pages: false,
            manifest: false,
            duration: false,
            exit_code: None,
            timings: false,
            theme: None,
            nerd_font: false,
            profile: None,
        }
    }
}

} // verus!
