//! What was captured from the foreground application when the popup opened.
use vstd::prelude::*;

use crate::text::copy_string;

verus! {

/// Where an action's input came from.
#[derive(Clone, Copy, Debug, PartialEq, Eq, Structural)]
pub enum InputSource {
    Selection,
    Candidate,
    Manual,
    Clipboard,
}

/// How a capture of the foreground selection ended.
#[derive(Clone, Copy, Debug, PartialEq, Eq, Structural)]
pub enum CaptureStatus {
    VerifiedSelection,
    CandidateText,
    NoSelection,
    Unsupported,
    PermissionDenied,
    TimedOut,
}

/// A handle on a captured target, used to replace its selection later.
#[derive(Clone, Copy, Debug, PartialEq, Eq, Structural, Hash)]
pub struct ContextToken(pub u64);

/// A capture of the foreground application.
#[derive(Clone, Debug)]
pub struct ContextSnapshot {
    pub captured_at_ms: u64,
    pub status: CaptureStatus,
    pub text: Option<String>,
    pub process_id: u32,
    pub window_title: String,
    pub replace_token: Option<ContextToken>,
    pub detail: String,
}

impl ContextSnapshot {
    /// A capture that found nothing: status `status`, explained by `detail`.
    pub fn empty(status: CaptureStatus, detail: &str) -> (r: Self)
        ensures
            r.captured_at_ms == 0,
            r.status == status,
            r.text is None,
            r.process_id == 0,
            r.window_title@ == Seq::<char>::empty(),
            r.replace_token is None,
            r.detail@ == detail@,
    {
        ContextSnapshot {
            captured_at_ms: 0,
            status,
            text: None,
            process_id: 0,
            window_title: String::new(),
            replace_token: None,
            detail: detail.to_owned(),
        }
    }

    /// Whether the capture is a verified selection.
    pub fn is_verified(&self) -> (r: bool)
        ensures
            r == (self.status == CaptureStatus::VerifiedSelection),
    {
        self.status == CaptureStatus::VerifiedSelection
    }
}

/// The foreground window a capture was taken from.
#[derive(Clone, Debug)]
pub struct ForegroundTarget {
    pub process_id: u32,
    pub title: String,
}

/// A capture of `target` taken at `captured_at_ms`.
pub fn snapshot_for(
    captured_at_ms: u64,
    target: &ForegroundTarget,
    status: CaptureStatus,
    text: Option<String>,
    replace_token: Option<ContextToken>,
    detail: &str,
) -> (r: ContextSnapshot)
    ensures
        r.captured_at_ms == captured_at_ms,
        r.status == status,
        r.text == text,
        r.process_id == target.process_id,
        r.window_title@ == target.title@,
        r.replace_token == replace_token,
        r.detail@ == detail@,
{
    ContextSnapshot {
        captured_at_ms,
        status,
        text,
        process_id: target.process_id,
        window_title: copy_string(&target.title),
        replace_token,
        detail: detail.to_owned(),
    }
}

/// How a replacement of the selection went.
#[derive(Clone, Copy, Debug, PartialEq, Eq, Structural)]
pub enum ReplaceOutcome {
    ReplacedClipboardKept,
    CopiedOnly,
}

/// Why a context operation failed.
#[derive(Clone, Debug)]
pub enum ContextError {
    TargetChanged,
    Expired,
    Unsupported,
    PermissionDenied,
    Failed(String),
}

} // verus!
