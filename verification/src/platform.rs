use vstd::prelude::*;

verus! {

/// The operating-system family whose conventions decide the home-directory
/// fallback.
#[derive(Clone, Copy, Debug, PartialEq, Eq, Structural)]
pub enum Platform {
    Windows,
    MacOs,
    Unix,
}

/// A snapshot of the environment values that decide the home directory.
///
/// The caller takes the snapshot (reading `HOME` or `USERPROFILE` once per
/// fallback), so that the choice of a home directory is a pure function of
/// the snapshot and can be exercised without touching the real environment.
pub struct EnvSnapshot {
    pub platform: Platform,
    /// The value of `HOME`, when it is set.
    pub home: Option<String>,
    /// The value of `USERPROFILE`, when it is set.
    pub user_profile: Option<String>,
}

/// The home directory that `env` designates: the platform's home variable
/// when it is set, else the platform's hardcoded fallback.
pub open spec fn home_directory_spec(env: EnvSnapshot) -> Seq<char> {
    match env.platform {
        Platform::Windows => match env.user_profile {
            Some(s) => s@,
            None => "C:\\"@,
        },
        Platform::MacOs => match env.home {
            Some(s) => s@,
            None => "/Users"@,
        },
        Platform::Unix => match env.home {
            Some(s) => s@,
            None => "/home"@,
        },
    }
}

/// Returns the home directory designated by the given environment snapshot.
pub fn home_directory(env: &EnvSnapshot) -> (r: String)
    ensures
        r@ == home_directory_spec(*env),
{
    match env.platform {
        Platform::Windows => match &env.user_profile {
            Some(s) => s.clone(),
            None => "C:\\".to_owned(),
        },
        Platform::MacOs => match &env.home {
            Some(s) => s.clone(),
            None => "/Users".to_owned(),
        },
        Platform::Unix => match &env.home {
            Some(s) => s.clone(),
            None => "/home".to_owned(),
        },
    }
}

} // verus!
