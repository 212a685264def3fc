//! Window-level decisions: locating the application bundle for a relaunch,
//! the script that relaunches it, and what an update check shows.

use vstd::prelude::*;

use crate::paths::{extension, file_name, parent, path_extension, path_file_name, path_parent};
use crate::i18n::{interpolated, t, t_with, translation, I18n};
use crate::text::{chars_of, concat, decimal, decimal_chars, str_equals, string_of};

verus! {

/// The `.app` bundle that contains an executable at
/// `<bundle>.app/Contents/MacOS/<exe>`, if it is laid out that way.
pub open spec fn bundle_root_spec(exe: Seq<char>) -> Option<Seq<char>> {
    match path_parent(exe) {
        None => None,
        Some(macos_dir) => if path_file_name(macos_dir) != Some("MacOS"@) {
            None
        } else {
            match path_parent(macos_dir) {
                None => None,
                Some(contents) => if path_file_name(contents) != Some("Contents"@) {
                    None
                } else {
                    match path_parent(contents) {
                        None => None,
                        Some(root) => if path_extension(root) != Some("app"@) {
                            None
                        } else {
                            Some(root)
                        },
                    }
                },
            }
        },
    }
}

/// Whether a path component the path functions found is the expected one.
pub fn component_is(found: Option<String>, expected: &str) -> (r: bool)
    ensures
        r == (match found {
            Some(f) => Some(f@),
            None => None,
        } == Some(expected@)),
{
    match found {
        Some(f) => str_equals(f.as_str(), expected),
        None => false,
    }
}

/// The application bundle root of the running executable `exe`.
pub fn bundle_root(exe: &str) -> (root: Option<String>)
    ensures
        match root {
            Some(r) => bundle_root_spec(exe@) == Some(r@),
            None => bundle_root_spec(exe@) is None,
        },
{
    let macos_dir = match parent(exe) {
        Some(d) => d,
        None => return None,
    };
    if !component_is(file_name(macos_dir.as_str()), "MacOS") {
        return None;
    }
    let contents = match parent(macos_dir.as_str()) {
        Some(d) => d,
        None => return None,
    };
    if !component_is(file_name(contents.as_str()), "Contents") {
        return None;
    }
    let root = match parent(contents.as_str()) {
        Some(d) => d,
        None => return None,
    };
    if !component_is(extension(root.as_str()), "app") {
        return None;
    }
    Some(root)
}


/// The shell script that waits (up to 150 polls, 0.2 s apart) for the
/// process `pid` to exit and then reopens the bundle passed as `$0`.
pub open spec fn relaunch_script_spec(pid: nat) -> Seq<char> {
    "n=0; while /bin/kill -0 "@ + decimal(pid)
        + " 2>/dev/null && [ $n -lt 150 ]; do /bin/sleep 0.2; n=$((n+1)); done; /bin/kill -0 "@
        + decimal(pid) + " 2>/dev/null || exec /usr/bin/open \"$0\""@
}

/// The relaunch script for the running process `pid`.
pub fn relaunch_script(pid: u32) -> (script: String)
    ensures
        script@ == relaunch_script_spec(pid as nat),
{
    let digits = decimal_chars(pid as u64);
    let mut v = chars_of("n=0; while /bin/kill -0 ");
    let mut d1 = digits.clone();
    v.append(&mut d1);
    let mut mid = chars_of(" 2>/dev/null && [ $n -lt 150 ]; do /bin/sleep 0.2; n=$((n+1)); done; /bin/kill -0 ");
    v.append(&mut mid);
    let mut d2 = digits.clone();
    v.append(&mut d2);
    let mut tail = chars_of(" 2>/dev/null || exec /usr/bin/open \"$0\"");
    v.append(&mut tail);
    string_of(v.as_slice())
}

/// What an update check came back with.
#[derive(Debug, Clone, PartialEq, Eq)]
pub enum UpdateCheck {
    /// A newer version, with its version number, is available.
    Available(String),
    /// The installed version is the latest.
    UpToDate,
    /// The update server could not be reached (the error's text).
    Unreachable(String),
    /// The updater could not be set up (the error's text).
    CheckFailed(String),
}

/// What the application shows after an update check.
#[derive(Debug, Clone, PartialEq, Eq)]
pub enum UpdateReaction {
    /// Offer to install the update, with this text.
    Offer(String),
    /// An information dialog with this text.
    Inform(String),
    /// A warning dialog with this text.
    Warn(String),
    /// Only a line in the log.
    Log(String),
    /// Restart into the installed update.
    Relaunch,
    /// Nothing at all.
    Nothing,
}

/// The catalog key of the warning for a failed check.
pub open spec fn update_failure_key(check: UpdateCheck) -> Seq<char> {
    match check {
        UpdateCheck::Unreachable(_) => "updates.unreachable"@,
        _ => "updates.check_failed"@,
    }
}

/// A found update is always offered. Otherwise a check the user asked for
/// says that the version is the latest or warns with the failure, while an
/// automatic (silent) check shows nothing and only logs a failure.
pub fn update_reaction(i18n: &I18n, check: UpdateCheck, silent: bool) -> (r: UpdateReaction)
    ensures
        match check {
            UpdateCheck::Available(version) => r matches UpdateReaction::Offer(text) && text@
                == interpolated(translation(*i18n, "updates.available"@), seq![("version"@, version@)]),
            UpdateCheck::UpToDate => if silent {
                r == UpdateReaction::Nothing
            } else {
                r matches UpdateReaction::Inform(text) && text@ == translation(*i18n, "updates.latest"@)
            },
            UpdateCheck::Unreachable(err) | UpdateCheck::CheckFailed(err) => if silent {
                r matches UpdateReaction::Log(line) && line@ == "update auto-check failed: "@ + err@
            } else {
                r matches UpdateReaction::Warn(text) && text@ == interpolated(
                    translation(*i18n, update_failure_key(check)),
                    seq![("err"@, err@)],
                )
            },
        },
{
    match check {
        UpdateCheck::Available(version) => {
            let args = [("version", version.as_str())];
            let text = t_with(i18n, "updates.available", &args);
            proof {
                assert(args@.map_values(|a: (&str, &str)| (a.0@, a.1@)) =~= seq![("version"@, version@)]);
            }
            UpdateReaction::Offer(text)
        },
        UpdateCheck::UpToDate => if silent {
            UpdateReaction::Nothing
        } else {
            UpdateReaction::Inform(t(i18n, "updates.latest"))
        },
        UpdateCheck::Unreachable(err) => if silent {
            UpdateReaction::Log(concat("update auto-check failed: ", err.as_str()))
        } else {
            let args = [("err", err.as_str())];
            let text = t_with(i18n, "updates.unreachable", &args);
            proof {
                assert(args@.map_values(|a: (&str, &str)| (a.0@, a.1@)) =~= seq![("err"@, err@)]);
            }
            UpdateReaction::Warn(text)
        },
        UpdateCheck::CheckFailed(err) => if silent {
            UpdateReaction::Log(concat("update auto-check failed: ", err.as_str()))
        } else {
            let args = [("err", err.as_str())];
            let text = t_with(i18n, "updates.check_failed", &args);
            proof {
                assert(args@.map_values(|a: (&str, &str)| (a.0@, a.1@)) =~= seq![("err"@, err@)]);
            }
            UpdateReaction::Warn(text)
        },
    }
}


/// What follows installing an accepted update: a relaunch into it, or a
/// warning with the installer's error.
pub fn install_reaction(i18n: &I18n, installed: Result<(), String>) -> (r: UpdateReaction)
    ensures
        match installed {
            Ok(()) => r == UpdateReaction::Relaunch,
            Err(err) => r matches UpdateReaction::Warn(text) && text@ == interpolated(
                translation(*i18n, "updates.install_failed"@),
                seq![("err"@, err@)],
            ),
        },
{
    match installed {
        Ok(()) => UpdateReaction::Relaunch,
        Err(err) => {
            let args = [("err", err.as_str())];
            let text = t_with(i18n, "updates.install_failed", &args);
            proof {
                assert(args@.map_values(|a: (&str, &str)| (a.0@, a.1@)) =~= seq![("err"@, err@)]);
            }
            UpdateReaction::Warn(text)
        },
    }
}

} // verus!
