//! What can go wrong when a cache is configured.
use crate::time::Duration;
use vstd::prelude::*;

verus! {

/// Why a builder could not build its cache.
#[derive(Clone, Copy, Debug, PartialEq, Eq)]
pub enum BuildError {
    /// A setting without a default was not given.
    MissingRequired(&'static str),
    /// A setting was given a value that it cannot take.
    InvalidValue { field: &'static str, reason: &'static str },
}

/// Why a size bound was refused.
#[derive(Clone, Copy, Debug, PartialEq, Eq)]
pub enum SetMaxSizeError {
    ZeroMaxSize,
}

/// Why a time to live was refused.
#[derive(Clone, Copy, Debug, PartialEq, Eq)]
pub enum SetTtlError {
    ZeroTtl,
}

/// Whether `r` refuses the value of the setting `field`.
pub open spec fn refuses<T>(
    r: Result<T, BuildError>,
    field: Seq<char>,
    reason: Seq<char>,
) -> bool {
    match r {
        Err(BuildError::InvalidValue { field: f, reason: why }) => f@ == field && why@ == reason,
        _ => false,
    }
}

/// Whether `r` refuses the value of the setting `field`, for whatever reason.
pub open spec fn refuses_field<T>(r: Result<T, BuildError>, field: Seq<char>) -> bool {
    r matches Err(BuildError::InvalidValue { field: f, .. }) && f@ == field
}

/// Whether `r` refuses a time to live that was not given or is zero.
pub open spec fn refuses_ttl<T>(ttl: Option<Duration>, r: Result<T, BuildError>) -> bool {
    match ttl {
        None => r matches Err(BuildError::MissingRequired(field)) && field@ == "ttl"@,
        Some(_) => refuses(r, "ttl"@, "must be greater than zero"@),
    }
}

/// The time to live that a builder was given. It must be given, and not be zero.
pub fn validate_ttl(ttl: Option<Duration>) -> (r: Result<Duration, BuildError>)
    ensures
        match ttl {
            Some(d) if d.nanos != 0 => r == Ok::<Duration, BuildError>(d),
            _ => refuses_ttl(ttl, r),
        },
{
    match ttl {
        None => Err(BuildError::MissingRequired("ttl")),
        Some(d) => if d.is_zero() {
            Err(BuildError::InvalidValue { field: "ttl", reason: "must be greater than zero" })
        } else {
            Ok(d)
        },
    }
}

/// A refusal is an error that names the setting: one that was not given, or one with a value that it
/// cannot take.
pub proof fn law_refusals_are_errors<T>(
    r: Result<T, BuildError>,
    field: Seq<char>,
    reason: Seq<char>,
    ttl: Option<Duration>,
)
    ensures
        refuses(r, field, reason) ==> r is Err && refuses_field(r, field),
        refuses_field(r, field) ==> r is Err,
        refuses_ttl(ttl, r) && ttl is None ==> r is Err && r->Err_0 is MissingRequired
            && r->Err_0->MissingRequired_0@ == "ttl"@,
        refuses_ttl(ttl, r) && ttl is Some ==> r is Err && r->Err_0 is InvalidValue
            && r->Err_0->field@ == "ttl"@ && r->Err_0->reason@ == "must be greater than zero"@,
{
}

} // verus!
