//! Snapshots of the account's rate limits, and how a new snapshot takes over
//! what it does not say itself.

use vstd::prelude::*;

verus! {

/// The plan of the account.
#[derive(Debug, Clone, Copy, PartialEq, Eq)]
pub enum PlanType {
    Free,
    Plus,
    Pro,
    Team,
    Business,
    Enterprise,
    Edu,
    Unknown,
}

/// One window of a rate limit. The share that is used is a percentage with
/// a fraction; it is held by the bits of its 64-bit floating-point form and
/// is never computed with here.
#[derive(Debug, Clone, Copy, PartialEq, Eq)]
pub struct RateLimitWindow {
    pub used_percent_bits: u64,
    pub window_minutes: Option<i64>,
    pub resets_at: Option<i64>,
}

/// The credits of the account.
#[derive(Debug, PartialEq, Eq)]
pub struct CreditsSnapshot {
    pub has_credits: bool,
    pub unlimited: bool,
    pub balance: Option<String>,
}

pub struct CreditsSnapshotView {
    pub has_credits: bool,
    pub unlimited: bool,
    pub balance: Option<Seq<char>>,
}

/// The characters of a string that may be missing.
pub open spec fn optional_text(text: Option<String>) -> Option<Seq<char>> {
    match text {
        Some(text) => Some(text@),
        None => None,
    }
}

impl View for CreditsSnapshot {
    type V = CreditsSnapshotView;

    open spec fn view(&self) -> CreditsSnapshotView {
        CreditsSnapshotView {
            has_credits: self.has_credits,
            unlimited: self.unlimited,
            balance: optional_text(self.balance),
        }
    }
}

/// A copy of a string that may be missing.
pub fn clone_optional_text(text: &Option<String>) -> (copy: Option<String>)
    ensures
        optional_text(copy) == optional_text(*text),
{
    match text {
        Some(text) => Some(text.clone()),
        None => None,
    }
}

impl Clone for CreditsSnapshot {
    fn clone(&self) -> (copy: Self)
        ensures
            copy@ == self@,
    {
        CreditsSnapshot {
            has_credits: self.has_credits,
            unlimited: self.unlimited,
            balance: clone_optional_text(&self.balance),
        }
    }
}

/// What the service last said about one bucket of rate limits.
#[derive(Debug, PartialEq, Eq)]
pub struct RateLimitSnapshot {
    pub limit_id: Option<String>,
    pub limit_name: Option<String>,
    pub primary: Option<RateLimitWindow>,
    pub secondary: Option<RateLimitWindow>,
    pub credits: Option<CreditsSnapshot>,
    pub plan_type: Option<PlanType>,
}

pub struct RateLimitSnapshotView {
    pub limit_id: Option<Seq<char>>,
    pub limit_name: Option<Seq<char>>,
    pub primary: Option<RateLimitWindow>,
    pub secondary: Option<RateLimitWindow>,
    pub credits: Option<CreditsSnapshotView>,
    pub plan_type: Option<PlanType>,
}

/// The credits, where there are any.
pub open spec fn optional_credits(credits: Option<CreditsSnapshot>) -> Option<CreditsSnapshotView> {
    match credits {
        Some(credits) => Some(credits@),
        None => None,
    }
}

impl View for RateLimitSnapshot {
    type V = RateLimitSnapshotView;

    open spec fn view(&self) -> RateLimitSnapshotView {
        RateLimitSnapshotView {
            limit_id: optional_text(self.limit_id),
            limit_name: optional_text(self.limit_name),
            primary: self.primary,
            secondary: self.secondary,
            credits: optional_credits(self.credits),
            plan_type: self.plan_type,
        }
    }
}

impl Clone for RateLimitSnapshot {
    fn clone(&self) -> (copy: Self)
        ensures
            copy@ == self@,
    {
        RateLimitSnapshot {
            limit_id: clone_optional_text(&self.limit_id),
            limit_name: clone_optional_text(&self.limit_name),
            primary: self.primary,
            secondary: self.secondary,
            credits: match &self.credits {
                Some(credits) => Some(credits.clone()),
                None => None,
            },
            plan_type: self.plan_type,
        }
    }
}

/// The snapshot that is kept when `snapshot` arrives after `previous`. A
/// snapshot that names no bucket belongs to the bucket `codex`. Credits and
/// plan that the snapshot does not give are those of the previous snapshot.
/// Everything else is as the snapshot says.
pub open spec fn merged(
    previous: Option<RateLimitSnapshotView>,
    snapshot: RateLimitSnapshotView,
) -> RateLimitSnapshotView {
    RateLimitSnapshotView {
        limit_id: match snapshot.limit_id {
            Some(id) => Some(id),
            None => Some("codex"@),
        },
        credits: match (snapshot.credits, previous) {
            (None, Some(prior)) => prior.credits,
            _ => snapshot.credits,
        },
        plan_type: match (snapshot.plan_type, previous) {
            (None, Some(prior)) => prior.plan_type,
            _ => snapshot.plan_type,
        },
        ..snapshot
    }
}

/// The snapshot, where there is one.
pub open spec fn optional_snapshot(snapshot: Option<&RateLimitSnapshot>) -> Option<
    RateLimitSnapshotView,
> {
    match snapshot {
        Some(snapshot) => Some(snapshot@),
        None => None,
    }
}

pub fn merge_rate_limit_fields(
    previous: Option<&RateLimitSnapshot>,
    snapshot: RateLimitSnapshot,
) -> (kept: RateLimitSnapshot)
    ensures
        kept@ == merged(optional_snapshot(previous), snapshot@),
{
    let mut snapshot = snapshot;
    if snapshot.limit_id.is_none() {
        snapshot.limit_id = Some("codex".to_owned());
    }
    if snapshot.credits.is_none() {
        snapshot.credits = match previous {
            Some(prior) => match &prior.credits {
                Some(credits) => Some(credits.clone()),
                None => None,
            },
            None => None,
        };
    }
    if snapshot.plan_type.is_none() {
        snapshot.plan_type = match previous {
            Some(prior) => prior.plan_type,
            None => None,
        };
    }
    snapshot
}

} // verus!
