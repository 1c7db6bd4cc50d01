use vstd::prelude::*;

use crate::platform::{home_directory, home_directory_spec, EnvSnapshot};
use crate::probe::{observe_path, parent_of, path_is_dir, path_try_exists, AccessError, PathFacts};

verus! {

/// A directory string the resolver settled on, together with whether it had
/// to fall back to the home directory.
pub struct Resolved {
    pub directory: String,
    /// True exactly when the candidate was rejected and the home directory
    /// returned instead; the caller owes a diagnostic to the error stream.
    pub fell_back: bool,
}

/// The resolve decision, as a function of what the filesystem reported:
/// a candidate seen to be an existing directory is returned unchanged, any
/// other candidate is replaced by the home directory of `env`.
pub fn resolve_from_observation(candidate: &str, is_dir: bool, env: &EnvSnapshot) -> (r: Resolved)
    ensures
        is_dir ==> r.directory@ == candidate@ && !r.fell_back,
        !is_dir ==> r.directory@ == home_directory_spec(*env) && r.fell_back,
{
    if is_dir {
        Resolved { directory: candidate.to_owned(), fell_back: false }
    } else {
        Resolved { directory: home_directory(env), fell_back: true }
    }
}

/// Returns `candidate` unchanged when it names an existing directory, else
/// the home directory of `env`.  `fell_back` reports which case was taken at
/// check time; when it is set, the caller owes a diagnostic.  The call never
/// fails, but nothing beyond existence at check time is promised of the
/// returned directory.
pub fn resolve_existing_directory(candidate: &str, env: &EnvSnapshot) -> (r: Resolved)
    ensures
        !r.fell_back ==> r.directory@ == candidate@,
        r.fell_back ==> r.directory@ == home_directory_spec(*env),
{
    let is_dir = path_is_dir(candidate);
    resolve_from_observation(candidate, is_dir, env)
}

/// The normalize decision, as a function of the reported facts; the first
/// matching case wins:
/// an existing directory is kept as it is; an existing file yields its
/// parent; a candidate whose parent is an existing directory yields that
/// parent (a directory carrying a stray trailing segment); anything else
/// falls back to the home directory of `env`.  The third case is a
/// heuristic: it cannot tell a mistyped file name from a nonsense two-level
/// path, and is kept as stated for behavioural compatibility.
pub fn normalize_from_facts(candidate: &str, facts: &PathFacts, env: &EnvSnapshot) -> (r: Resolved)
    ensures
        ({
            if facts.is_dir {
                r.directory@ == candidate@ && !r.fell_back
            } else {
                match facts.parent {
                    Some(p) => {
                        if facts.is_file || facts.parent_is_dir {
                            r.directory@ == p@ && !r.fell_back
                        } else {
                            r.directory@ == home_directory_spec(*env) && r.fell_back
                        }
                    },
                    None => r.directory@ == home_directory_spec(*env) && r.fell_back,
                }
            }
        }),
{
    if facts.is_dir {
        return Resolved { directory: candidate.to_owned(), fell_back: false };
    }
    match &facts.parent {
        Some(p) => {
            if facts.is_file || facts.parent_is_dir {
                return Resolved { directory: p.clone(), fell_back: false };
            }
        },
        None => {},
    }
    Resolved { directory: home_directory(env), fell_back: true }
}

/// Turns `candidate` into a directory that existed at check time: the
/// candidate itself, the parent that the path syntax gives it, or the home
/// directory of `env` as the fallback (with `fell_back` set, so the caller
/// can surface a diagnostic).
pub fn normalize_to_directory(candidate: &str, env: &EnvSnapshot) -> (r: Resolved)
    ensures
        !r.fell_back ==> r.directory@ == candidate@ || parent_of(candidate@) == Some(
            r.directory@,
        ),
        r.fell_back ==> r.directory@ == home_directory_spec(*env),
{
    let facts = observe_path(candidate);
    normalize_from_facts(candidate, &facts, env)
}

/// The phase the validate-or-reprompt workflow is in.
#[derive(Clone, Copy, Debug, PartialEq, Eq, Structural)]
pub enum PromptPhase {
    /// The current candidate awaits its existence check.
    AwaitingProbe,
    /// The current candidate was missing; a corrected path is awaited.
    AwaitingReply,
    /// The workflow has produced its outcome.
    Finished,
}

/// The state machine of the validate-or-reprompt workflow: a candidate path
/// is checked for existence, and while it is missing a human supplies a
/// corrected path, until a path exists or an empty reply abandons the
/// attempt.  The caller alternates `probe_current` (or `on_probe`, with the
/// filesystem's answer) and `on_reply` (with the human's line) until one of
/// them returns the outcome: `(true, path)` for a path seen to exist,
/// `(false, "")` for abandonment.  The driving loop blocks on the human and
/// has no other bound, so the loop itself stays with the caller.
pub struct PromptLoop {
    /// The candidate path the workflow is currently checking.
    pub current: String,
    pub phase: PromptPhase,
}

impl PromptLoop {
    /// Starts the workflow on `candidate`.
    pub fn new(candidate: &str) -> (s: Self)
        ensures
            s.phase == PromptPhase::AwaitingProbe,
            s.current@ == candidate@,
    {
        PromptLoop { current: candidate.to_owned(), phase: PromptPhase::AwaitingProbe }
    }

    /// Feeds the existence check's answer for `current`: an existing path is
    /// accepted as the successful outcome, a missing one asks the caller to
    /// obtain a corrected path.
    pub fn on_probe(&mut self, exists: bool) -> (r: Option<(bool, String)>)
        requires
            old(self).phase == PromptPhase::AwaitingProbe,
        ensures
            exists ==> final(self).phase == PromptPhase::Finished && (match r {
                Some(o) => o.0 == true && o.1@ == old(self).current@,
                None => false,
            }),
            !exists ==> r is None && final(self).phase == PromptPhase::AwaitingReply
                && final(self).current@ == old(self).current@,
    {
        if exists {
            self.phase = PromptPhase::Finished;
            Some((true, self.current.clone()))
        } else {
            self.phase = PromptPhase::AwaitingReply;
            None
        }
    }

    /// Feeds the human's corrected path: an empty line abandons the workflow
    /// with the outcome `(false, "")`, anything else becomes the next
    /// candidate to check.
    pub fn on_reply(&mut self, reply: &str) -> (r: Option<(bool, String)>)
        requires
            old(self).phase == PromptPhase::AwaitingReply,
        ensures
            reply@.len() == 0 ==> final(self).phase == PromptPhase::Finished && (match r {
                Some(o) => o.0 == false && o.1@ == Seq::<char>::empty(),
                None => false,
            }),
            reply@.len() > 0 ==> r is None && final(self).phase == PromptPhase::AwaitingProbe
                && final(self).current@ == reply@,
    {
        if reply.unicode_len() == 0 {
            self.phase = PromptPhase::Finished;
            Some((false, String::new()))
        } else {
            self.phase = PromptPhase::AwaitingProbe;
            self.current = reply.to_owned();
            None
        }
    }

    /// Checks `current` against the filesystem and feeds the answer to
    /// `on_probe`; an existence check that could not be determined is
    /// carried to the caller as the typed access error, with the workflow
    /// left as it was.
    pub fn probe_current(&mut self) -> (r: Result<Option<(bool, String)>, AccessError>)
        requires
            old(self).phase == PromptPhase::AwaitingProbe,
        ensures
            match r {
                Ok(step) => match step {
                    Some(o) => o.0 == true && o.1@ == old(self).current@ && final(self).phase
                        == PromptPhase::Finished,
                    None => final(self).phase == PromptPhase::AwaitingReply
                        && final(self).current@ == old(self).current@,
                },
                Err(_) => *final(self) == *old(self),
            },
    {
        let exists = match path_try_exists(self.current.as_str()) {
            Ok(b) => b,
            Err(e) => {
                return Err(e);
            },
        };
        Ok(self.on_probe(exists))
    }
}

} // verus!
