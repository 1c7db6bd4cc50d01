use vstd::prelude::*;

use crate::probe::{path_try_exists, AccessError};
use crate::text::{
    find_last_dot, last_dot_index, lemma_last_dot_index_bounds, lemma_last_dot_index_of, str_eq,
    trailing_component,
};

verus! {

/// An extension spec with any leading "*." (else any leading '.') stripped.
pub open spec fn normalize_extension_spec(s: Seq<char>) -> Seq<char> {
    if s.len() >= 2 && s[0] == '*' && s[1] == '.' {
        s.subrange(2, s.len() as int)
    } else if s.len() >= 1 && s[0] == '.' {
        s.subrange(1, s.len() as int)
    } else {
        s
    }
}

/// Strips a leading "*." from an extension spec if present, else a leading
/// '.' if present, else passes it through unchanged.  An empty spec is
/// permitted and means that no extension is enforced.
pub fn normalize_extension(raw: &str) -> (r: String)
    ensures
        r@ == normalize_extension_spec(raw@),
{
    let n = raw.unicode_len();
    if n >= 2 && raw.get_char(0) == '*' && raw.get_char(1) == '.' {
        raw.substring_char(2, n).to_owned()
    } else if n >= 1 && raw.get_char(0) == '.' {
        raw.substring_char(1, n).to_owned()
    } else {
        raw.to_owned()
    }
}

/// Law: a bare extension, the same extension behind "*.", and the same
/// extension behind '.' all normalize to the bare extension, provided the
/// bare form does not itself begin with one of the stripped markers.
pub proof fn lemma_normalize_extension_agrees(ext: Seq<char>)
    requires
        !(ext.len() >= 1 && ext[0] == '.'),
        !(ext.len() >= 2 && ext[0] == '*' && ext[1] == '.'),
    ensures
        normalize_extension_spec(ext) == ext,
        normalize_extension_spec(seq!['.'] + ext) == ext,
        normalize_extension_spec(seq!['*', '.'] + ext) == ext,
{
    assert(normalize_extension_spec(seq!['.'] + ext) =~= ext);
    assert(normalize_extension_spec(seq!['*', '.'] + ext) =~= ext);
}

/// `name` when its trailing component (the text after its last '.', empty
/// when it has none) already equals `ext`; else `name` with "." + `ext`
/// appended.
pub open spec fn ensure_extension_spec(name: Seq<char>, ext: Seq<char>) -> Seq<char> {
    if trailing_component(name) == ext {
        name
    } else {
        name + seq!['.'] + ext
    }
}

/// Appends "." + `ext` to `name` unless splitting `name` on its last '.'
/// already yields a trailing component equal to `ext`.  A `name` without any
/// '.' counts as having an empty trailing component, so a non-empty `ext` is
/// always appended to it.
pub fn ensure_extension(name: &str, ext: &str) -> (r: String)
    ensures
        r@ == ensure_extension_spec(name@, ext@),
{
    let n = name.unicode_len();
    let last = find_last_dot(name);
    let already = match last {
        Some(d) => {
            proof {
                lemma_last_dot_index_bounds(name@);
            }
            str_eq(name.substring_char(d + 1, n), ext)
        },
        None => {
            let r = ext.unicode_len() == 0;
            proof {
                if ext@.len() == 0 {
                    assert(ext@ =~= Seq::<char>::empty());
                }
            }
            r
        },
    };
    if already {
        name.to_owned()
    } else {
        let mut r = name.to_owned();
        r.append(".");
        r.append(ext);
        proof {
            reveal_strlit(".");
            assert("."@ =~= seq!['.']);
        }
        r
    }
}

/// When `ext` holds no '.', the last dot of `name` + "." + `ext` is the one
/// just appended.
proof fn lemma_last_dot_of_appended(name: Seq<char>, ext: Seq<char>)
    requires
        forall|j: int| 0 <= j < ext.len() ==> ext[j] != '.',
    ensures
        last_dot_index(name + seq!['.'] + ext) == name.len(),
{
    let m = name + seq!['.'] + ext;
    assert(m[name.len() as int] == '.');
    assert forall|j: int| name.len() < j < m.len() implies m[j] != '.' by {
        assert(m[j] == ext[j - name.len() - 1]);
    }
    lemma_last_dot_index_of(m, name.len() as int);
}

/// Law: enforcing an extension twice gives the same name as enforcing it
/// once, for every name and every extension that holds no '.' itself.
pub proof fn lemma_ensure_extension_idempotent(name: Seq<char>, ext: Seq<char>)
    requires
        forall|j: int| 0 <= j < ext.len() ==> ext[j] != '.',
    ensures
        ensure_extension_spec(ensure_extension_spec(name, ext), ext) == ensure_extension_spec(
            name,
            ext,
        ),
{
    if trailing_component(name) != ext {
        let m = name + seq!['.'] + ext;
        lemma_last_dot_of_appended(name, ext);
        assert(trailing_component(m) =~= ext);
    }
}

/// The outcome of trying to claim a save path in a directory.
#[derive(Clone, Copy, Debug, PartialEq, Eq, Structural)]
pub enum SaveDecision {
    /// The path, existing or not, is approved for writing.
    Proceed,
    /// The target exists and may not be overwritten; the caller should
    /// obtain a different name and claim again.
    Retry,
    /// The caller signalled, by an empty name, that no usable name is left.
    Abort,
}

/// The caller's way of answering "may the existing target be overwritten?".
/// An implementation asks a human (a terminal prompt, a message box) or is
/// scripted; the library promises nothing about the answer itself.
pub trait OverwriteConfirm {
    fn confirm_overwrite(&mut self) -> bool;
}

/// `dir` and `name` joined by a single path separator.
pub open spec fn join_path_spec(dir: Seq<char>, name: Seq<char>) -> Seq<char> {
    dir + seq!['/'] + name
}

/// What one claim attempt found and decided.
#[derive(Debug)]
pub struct SaveClaim {
    /// `dir` and `name` joined by a single separator: the path the decision
    /// is about.
    pub path: String,
    /// Whether that path existed at check time.
    pub existed: bool,
    /// The answer `confirm_overwrite` gave, when one was asked for.
    pub confirmed: Option<bool>,
    pub decision: SaveDecision,
}

/// Joins `dir` and `name` and decides whether the joined path may be
/// written: an empty `name` aborts, before any filesystem check and so
/// without a way to fail; a path not present at check time is
/// approved outright; an existing path is approved exactly when `confirm`
/// allows the overwrite, and otherwise asks for a retry with a new name.
/// An existence check that could not be determined is carried to the caller
/// as the typed access error.  The attempt itself never loops; a later
/// write may still race another process, since only the state at check time
/// is reported.
pub fn claim_save_path<C: OverwriteConfirm>(dir: &str, name: &str, confirm: &mut C) -> (r: Result<
    SaveClaim,
    AccessError,
>)
    ensures
        name@.len() == 0 ==> r is Ok,
        match r {
            Ok(c) => {
                &&& c.path@ == join_path_spec(dir@, name@)
                &&& (name@.len() == 0 ==> c.decision == SaveDecision::Abort && c.confirmed
                    is None)
                &&& (name@.len() > 0 && !c.existed ==> c.decision == SaveDecision::Proceed
                    && c.confirmed is None)
                &&& (name@.len() > 0 && c.existed ==> match c.confirmed {
                    Some(true) => c.decision == SaveDecision::Proceed,
                    Some(false) => c.decision == SaveDecision::Retry,
                    None => false,
                })
            },
            Err(_) => true,
        },
{
    let mut path = String::from_str(dir);
    path.append("/");
    path.append(name);
    proof {
        reveal_strlit("/");
        assert("/"@ =~= seq!['/']);
    }
    if name.unicode_len() == 0 {
        return Ok(
            SaveClaim { path, existed: false, confirmed: None, decision: SaveDecision::Abort },
        );
    }
    let existed = match path_try_exists(path.as_str()) {
        Ok(b) => b,
        Err(e) => {
            return Err(e);
        },
    };
    if !existed {
        return Ok(SaveClaim { path, existed, confirmed: None, decision: SaveDecision::Proceed });
    }
    let ans = confirm.confirm_overwrite();
    let decision = if ans {
        SaveDecision::Proceed
    } else {
        SaveDecision::Retry
    };
    Ok(SaveClaim { path, existed, confirmed: Some(ans), decision })
}

} // verus!
