//! What the program knows of the machine and the user.
use crate::paths::{HomeDirectory, HomePath, PathStyle};
use crate::text::text_option;
use vstd::prelude::*;

verus! {

/// What the program runs on.
#[derive(Debug, Clone, Copy, PartialEq, Eq, Structural)]
pub enum Platform {
    Linux,
    OtherUnix,
    Windows,
    Other,
}

impl Platform {
    /// How paths are written on the platform.
    #[verifier::allow_in_spec]
    pub fn path_style(self) -> PathStyle
        returns
            (if self == Platform::Windows {
                PathStyle::Windows
            } else {
                PathStyle::Unix
            }),
    {
        if self == Platform::Windows {
            PathStyle::Windows
        } else {
            PathStyle::Unix
        }
    }
}

/// The platform, and the environment variables that the program goes by.
#[derive(Debug, Clone, PartialEq, Eq)]
pub struct Environment {
    pub platform: Platform,
    /// `HOME`
    pub home: Option<String>,
    /// `USERPROFILE`
    pub user_profile: Option<String>,
    /// `USER`
    pub user: Option<String>,
    /// `USERNAME`
    pub username: Option<String>,
    /// `HOSTNAME`
    pub hostname: Option<String>,
    /// `COMPUTERNAME`
    pub computer_name: Option<String>,
    /// `PROGRAMDATA`
    pub program_data: Option<String>,
}

/// The first of two values that is given.
pub open spec fn either(first: Option<String>, second: Option<String>) -> Option<Seq<char>> {
    if first is Some {
        text_option(first)
    } else {
        text_option(second)
    }
}

fn given<'a>(first: &'a Option<String>, second: &'a Option<String>) -> (r: Option<&'a str>)
    ensures
        (match r {
            Some(value) => either(*first, *second) == Some(value@),
            None => either(*first, *second) is None,
        }),
{
    match first {
        Some(value) => Some(value.as_str()),
        None => match second {
            Some(value) => Some(value.as_str()),
            None => None,
        },
    }
}

impl Environment {
    /// The user's home directory; a tilde where it is not known.
    pub open spec fn home_path(self) -> Seq<char> {
        match either(self.home, self.user_profile) {
            Some(path) => path,
            None => "~"@,
        }
    }

    /// The user's home directory, and how paths are written.
    pub open spec fn home_place(self) -> HomePath {
        HomePath { path: self.home_path(), style: self.platform.path_style() }
    }

    /// The name that the user has at this machine.
    pub open spec fn user_name(self) -> Option<Seq<char>> {
        match either(self.user, self.username) {
            Some(name) => if name.len() == 0 {
                None
            } else {
                Some(name)
            },
            None => None,
        }
    }

    /// The name of this machine; empty where it is not known.
    pub open spec fn host_name(self) -> Seq<char> {
        match either(self.hostname, self.computer_name) {
            Some(name) => name,
            None => Seq::empty(),
        }
    }

    /// Knows nothing but the platform.
    pub fn bare(platform: Platform) -> (r: Environment)
        ensures
            r.platform == platform,
            r.home is None,
            r.user_profile is None,
            r.user is None,
            r.username is None,
            r.hostname is None,
            r.computer_name is None,
            r.program_data is None,
    {
        Environment {
            platform,
            home: None,
            user_profile: None,
            user: None,
            username: None,
            hostname: None,
            computer_name: None,
            program_data: None,
        }
    }

    /// The user's home directory; a tilde where it is not known.
    pub fn home_directory(&self) -> (r: &str)
        ensures
            r@ == self.home_path(),
    {
        match given(&self.home, &self.user_profile) {
            Some(path) => path,
            None => "~",
        }
    }

    /// The user's home directory, and how paths are written.
    pub fn user_home(&self) -> (r: HomeDirectory)
        ensures
            r@ == self.home_place(),
    {
        HomeDirectory {
            path: self.home_directory().to_owned(),
            style: self.platform.path_style(),
        }
    }

    /// The name that the user has at this machine.
    pub fn local_username(&self) -> (r: Option<&str>)
        ensures
            (match r {
                Some(name) => self.user_name() == Some(name@),
                None => self.user_name() is None,
            }),
    {
        match given(&self.user, &self.username) {
            Some(name) => if name.unicode_len() == 0 {
                None
            } else {
                Some(name)
            },
            None => None,
        }
    }

    /// The name of this machine; empty where it is not known.
    pub fn local_host(&self) -> (r: String)
        ensures
            r@ == self.host_name(),
    {
        match given(&self.hostname, &self.computer_name) {
            Some(name) => name.to_owned(),
            None => String::new(),
        }
    }
}

} // verus!
