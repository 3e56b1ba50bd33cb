//! How statuses and log severities are highlighted.

use vstd::prelude::*;

use crate::model::DeploymentStatus;
use crate::text::{chars_of, lower_chars, lower_seq, same_chars};

verus! {

/// The highlight of a status.
#[derive(Clone, Copy, Debug, PartialEq, Eq, Structural)]
pub enum Tone {
    /// Succeeded (green, bold).
    Good,
    /// Failed or crashed (red, bold).
    Bad,
    /// Building or deploying (cyan, bold).
    Active,
    /// Queued, initializing or waiting (yellow, bold).
    Pending,
    /// Removed, removing or skipped (dimmed).
    Muted,
    /// Unknown (plain).
    Plain,
}

/// The highlight of each status.
pub open spec fn tone_of(s: DeploymentStatus) -> Tone {
    match s {
        DeploymentStatus::Success => Tone::Good,
        DeploymentStatus::Failed | DeploymentStatus::Crashed => Tone::Bad,
        DeploymentStatus::Building | DeploymentStatus::Deploying => Tone::Active,
        DeploymentStatus::Queued | DeploymentStatus::Initializing | DeploymentStatus::Waiting =>
            Tone::Pending,
        DeploymentStatus::Removed | DeploymentStatus::Removing | DeploymentStatus::Skipped =>
            Tone::Muted,
        DeploymentStatus::Unknown => Tone::Plain,
    }
}

/// The highlight of a status.
pub fn status_tone(status: DeploymentStatus) -> (t: Tone)
    ensures
        t == tone_of(status),
{
    match status {
        DeploymentStatus::Success => Tone::Good,
        DeploymentStatus::Failed | DeploymentStatus::Crashed => Tone::Bad,
        DeploymentStatus::Building | DeploymentStatus::Deploying => Tone::Active,
        DeploymentStatus::Queued | DeploymentStatus::Initializing | DeploymentStatus::Waiting =>
            Tone::Pending,
        DeploymentStatus::Removed | DeploymentStatus::Removing | DeploymentStatus::Skipped =>
            Tone::Muted,
        DeploymentStatus::Unknown => Tone::Plain,
    }
}

/// The highlight of a log line's severity.
#[derive(Clone, Copy, Debug, PartialEq, Eq, Structural)]
pub enum SeverityTone {
    /// `error` or `err` (red, bold).
    Error,
    /// `warn` or `warning` (yellow, bold).
    Warn,
    /// `info` (cyan).
    Info,
    /// `debug` (dimmed).
    Debug,
    /// Anything else (plain).
    Plain,
}

/// The highlight of a severity, compared ignoring ASCII case.
pub open spec fn severity_tone_of(sev: Seq<char>) -> SeverityTone {
    let l = lower_seq(sev);
    if l == "error"@ || l == "err"@ {
        SeverityTone::Error
    } else if l == "warn"@ || l == "warning"@ {
        SeverityTone::Warn
    } else if l == "info"@ {
        SeverityTone::Info
    } else if l == "debug"@ {
        SeverityTone::Debug
    } else {
        SeverityTone::Plain
    }
}

/// The highlight of a log line's severity.
pub fn severity_tone(severity: &str) -> (t: SeverityTone)
    ensures
        t == severity_tone_of(severity@),
{
    let sc = chars_of(severity);
    let l = lower_chars(sc.as_slice());
    let is = |w: &str| -> (b: bool)
        ensures
            b == (l@ == w@),
        {
            let wc = chars_of(w);
            same_chars(l.as_slice(), wc.as_slice())
        };
    if is("error") || is("err") {
        SeverityTone::Error
    } else if is("warn") || is("warning") {
        SeverityTone::Warn
    } else if is("info") {
        SeverityTone::Info
    } else if is("debug") {
        SeverityTone::Debug
    } else {
        SeverityTone::Plain
    }
}

} // verus!
