//! Leader election through a Kubernetes lease: the settings read from the
//! environment and the decision taken on the lease at each attempt.
use vstd::prelude::*;
use crate::text::{str_eq, chars_of, parse_i32, parse_i32_spec};

verus! {

/// Whether a setting switches leader election on: `1`, `true`, `TRUE`,
/// `yes` or `YES`.
pub open spec fn switched_on(v: Seq<char>) -> bool {
    v == "1"@ || v == "true"@ || v == "TRUE"@ || v == "yes"@ || v == "YES"@
}

pub fn election_enabled(setting: Option<&str>) -> (r: bool)
    ensures
        r == match setting {
            Some(v) => switched_on(v@),
            None => false,
        },
{
    match setting {
        Some(v) => str_eq(v, "1") || str_eq(v, "true") || str_eq(v, "TRUE") || str_eq(v, "yes")
            || str_eq(v, "YES"),
        None => false,
    }
}

/// The lease length in seconds: the setting read as an integer, else 15;
/// at least 5.
pub open spec fn lease_seconds_spec(setting: Option<Seq<char>>) -> i32 {
    let v = match setting {
        Some(s) => match parse_i32_spec(s) {
            Some(n) => n,
            None => 15,
        },
        None => 15,
    };
    if v < 5 {
        5
    } else {
        v
    }
}

pub fn lease_seconds(setting: Option<&str>) -> (r: i32)
    ensures
        r == lease_seconds_spec(
            match setting {
                Some(s) => Some(s@),
                None => None,
            },
        ),
{
    let v: i32 = match setting {
        Some(s) => {
            let chars = chars_of(s);
            match parse_i32(chars.as_slice()) {
                Some(n) => n,
                None => 15,
            }
        },
        None => 15,
    };
    if v < 5 {
        5
    } else {
        v
    }
}

/// The identity of this instance: the pod name, else the host name, else
/// `class-chat-bot`.
pub fn holder_identity(pod_name: Option<&str>, hostname: Option<&str>) -> (r: String)
    ensures
        r@ == match pod_name {
            Some(p) => p@,
            None => match hostname {
                Some(h) => h@,
                None => "class-chat-bot"@,
            },
        },
{
    match pod_name {
        Some(p) => p.to_owned(),
        None => match hostname {
            Some(h) => h.to_owned(),
            None => "class-chat-bot".to_owned(),
        },
    }
}

/// A setting, or its default.
pub fn setting_or(setting: Option<&str>, default: &str) -> (r: String)
    ensures
        r@ == match setting {
            Some(s) => s@,
            None => default@,
        },
{
    match setting {
        Some(s) => s.to_owned(),
        None => default.to_owned(),
    }
}

/// What is done on the lease.
#[derive(Clone, Debug)]
pub enum LeaseAction {
    /// There is no lease: create one held by this instance.
    Create,
    /// Take or renew the lease, keeping this length in seconds.
    Renew { duration_seconds: i32 },
    /// Another instance holds a live lease: wait.
    Wait,
}

/// The lease length of an existing lease: its own, else ours; at least 1.
pub open spec fn existing_duration(lease_duration: Option<i32>, ours: i32) -> i32 {
    let d = match lease_duration {
        Some(d) => d,
        None => ours,
    };
    if d < 1 {
        1
    } else {
        d
    }
}

/// The decision on a lease: create one where there is none; take or renew
/// it when this instance holds it or it has expired (no renewal recorded,
/// or at least its length since the last one); else wait.
pub open spec fn lease_action_spec(
    exists: bool,
    holder: Seq<char>,
    lease_duration: Option<i32>,
    renewed_seconds_ago: Option<i64>,
    identity: Seq<char>,
    ours: i32,
) -> LeaseAction {
    if !exists {
        LeaseAction::Create
    } else {
        let d = existing_duration(lease_duration, ours);
        let expired = match renewed_seconds_ago {
            Some(age) => age >= d,
            None => true,
        };
        if holder == identity || expired {
            LeaseAction::Renew { duration_seconds: d }
        } else {
            LeaseAction::Wait
        }
    }
}

pub fn lease_action(
    exists: bool,
    holder: &str,
    lease_duration: Option<i32>,
    renewed_seconds_ago: Option<i64>,
    identity: &str,
    ours: i32,
) -> (r: LeaseAction)
    ensures
        r == lease_action_spec(exists, holder@, lease_duration, renewed_seconds_ago, identity@, ours),
{
    if !exists {
        return LeaseAction::Create;
    }
    let d0 = match lease_duration {
        Some(d) => d,
        None => ours,
    };
    let d = if d0 < 1 {
        1
    } else {
        d0
    };
    let expired = match renewed_seconds_ago {
        Some(age) => age >= d as i64,
        None => true,
    };
    if str_eq(holder, identity) || expired {
        LeaseAction::Renew { duration_seconds: d }
    } else {
        LeaseAction::Wait
    }
}

/// How often a held lease is renewed, in seconds: a third of its length,
/// at least 1.
pub fn renew_interval(duration_seconds: i32) -> (r: u64)
    ensures
        r == if duration_seconds / 3 < 1 { 1 } else { duration_seconds / 3 },
{
    let third = duration_seconds / 3;
    if third < 1 {
        1
    } else {
        third as u64
    }
}

} // verus!
