//! The closed classification enums and their fixed integer wire values.
//!
//! Each enum serializes as a small integer, never as a variant name. The
//! numeric values are a wire contract shared across services: they are bound
//! to the variants by the `*_code` spec functions below, independent of the
//! declaration order, and must never be renumbered.

use vstd::prelude::*;

verus! {

/// Canonical failure category, mirroring the widely recognized
/// gRPC / Google API status-code taxonomy.
#[derive(Clone, Copy, Debug, PartialEq, Eq, Structural)]
pub enum Kind {
    /// Not an error; returned on success.
    Okay,
    /// The operation was cancelled, typically by the caller.
    Cancelled,
    /// Unknown error, e.g. one from a foreign error space.
    Unknown,
    /// The client specified an argument invalid regardless of system state.
    InvalidArgument,
    /// The deadline expired before the operation could complete.
    DeadlineExceeded,
    /// A requested entity was not found.
    NotFound,
    /// The entity a client attempted to create already exists.
    AlreadyExists,
    /// The caller lacks permission for the operation.
    PermissionDenied,
    /// The request lacks valid authentication credentials.
    Unauthenticated,
    /// Some resource (quota, disk space) has been exhausted.
    ResourceExhausted,
    /// The system is not in a state required for the operation.
    FailedPrecondition,
    /// The operation was aborted, typically due to a concurrency issue.
    Aborted,
    /// The operation was attempted past the valid range.
    OutOfRange,
    /// The operation is not implemented or not enabled.
    Unimplemented,
    /// An invariant expected by the underlying system was broken.
    Internal,
    /// The service is currently unavailable; most likely transient.
    Unavailable,
    /// Unrecoverable data loss or corruption.
    DataLoss,
}

/// Where along the request path the error originated.
#[derive(Clone, Copy, Debug, PartialEq, Eq, Structural)]
pub enum Scope {
    Internal,
    Clientside,
    Serverside,
}

/// Whether retrying the triggering operation is safe.
#[derive(Clone, Copy, Debug, PartialEq, Eq, Structural)]
pub enum RetryMode {
    Unknown,
    Allowed,
    Denied,
}

/// Whether the error may be forwarded verbatim to an upstream caller.
#[derive(Clone, Copy, Debug, PartialEq, Eq, Structural)]
pub enum PassThroughMode {
    Auto,
    Should,
    Never,
}

/// The fixed wire value of each `Kind` variant. Note the historical gap:
/// `Unauthenticated` is 16, while `ResourceExhausted` stays at 8.
pub open spec fn kind_code(k: Kind) -> int {
    match k {
        Kind::Okay => 0,
        Kind::Cancelled => 1,
        Kind::Unknown => 2,
        Kind::InvalidArgument => 3,
        Kind::DeadlineExceeded => 4,
        Kind::NotFound => 5,
        Kind::AlreadyExists => 6,
        Kind::PermissionDenied => 7,
        Kind::ResourceExhausted => 8,
        Kind::FailedPrecondition => 9,
        Kind::Aborted => 10,
        Kind::OutOfRange => 11,
        Kind::Unimplemented => 12,
        Kind::Internal => 13,
        Kind::Unavailable => 14,
        Kind::DataLoss => 15,
        Kind::Unauthenticated => 16,
    }
}

/// The `Kind` owning a wire value, if any: exactly the values 0 through 16.
pub open spec fn kind_from_code(v: int) -> Option<Kind> {
    if v == 0 { Some(Kind::Okay) }
    else if v == 1 { Some(Kind::Cancelled) }
    else if v == 2 { Some(Kind::Unknown) }
    else if v == 3 { Some(Kind::InvalidArgument) }
    else if v == 4 { Some(Kind::DeadlineExceeded) }
    else if v == 5 { Some(Kind::NotFound) }
    else if v == 6 { Some(Kind::AlreadyExists) }
    else if v == 7 { Some(Kind::PermissionDenied) }
    else if v == 8 { Some(Kind::ResourceExhausted) }
    else if v == 9 { Some(Kind::FailedPrecondition) }
    else if v == 10 { Some(Kind::Aborted) }
    else if v == 11 { Some(Kind::OutOfRange) }
    else if v == 12 { Some(Kind::Unimplemented) }
    else if v == 13 { Some(Kind::Internal) }
    else if v == 14 { Some(Kind::Unavailable) }
    else if v == 15 { Some(Kind::DataLoss) }
    else if v == 16 { Some(Kind::Unauthenticated) }
    else { None }
}

impl Kind {
    /// The integer this variant takes on the wire.
    pub fn code(&self) -> (r: i8)
        ensures
            r as int == kind_code(*self),
    {
        match self {
            Kind::Okay => 0,
            Kind::Cancelled => 1,
            Kind::Unknown => 2,
            Kind::InvalidArgument => 3,
            Kind::DeadlineExceeded => 4,
            Kind::NotFound => 5,
            Kind::AlreadyExists => 6,
            Kind::PermissionDenied => 7,
            Kind::ResourceExhausted => 8,
            Kind::FailedPrecondition => 9,
            Kind::Aborted => 10,
            Kind::OutOfRange => 11,
            Kind::Unimplemented => 12,
            Kind::Internal => 13,
            Kind::Unavailable => 14,
            Kind::DataLoss => 15,
            Kind::Unauthenticated => 16,
        }
    }

    /// Recover a variant from a wire value; every value outside 0..=16 is
    /// rejected rather than coerced to a default.
    pub fn from_code(v: i64) -> (r: Option<Kind>)
        ensures
            r == kind_from_code(v as int),
    {
        if v == 0 { Some(Kind::Okay) }
        else if v == 1 { Some(Kind::Cancelled) }
        else if v == 2 { Some(Kind::Unknown) }
        else if v == 3 { Some(Kind::InvalidArgument) }
        else if v == 4 { Some(Kind::DeadlineExceeded) }
        else if v == 5 { Some(Kind::NotFound) }
        else if v == 6 { Some(Kind::AlreadyExists) }
        else if v == 7 { Some(Kind::PermissionDenied) }
        else if v == 8 { Some(Kind::ResourceExhausted) }
        else if v == 9 { Some(Kind::FailedPrecondition) }
        else if v == 10 { Some(Kind::Aborted) }
        else if v == 11 { Some(Kind::OutOfRange) }
        else if v == 12 { Some(Kind::Unimplemented) }
        else if v == 13 { Some(Kind::Internal) }
        else if v == 14 { Some(Kind::Unavailable) }
        else if v == 15 { Some(Kind::DataLoss) }
        else if v == 16 { Some(Kind::Unauthenticated) }
        else { None }
    }
}

impl Default for Kind {
    /// A record constructed without an explicit category reports success.
    fn default() -> (r: Self)
        ensures
            r == Kind::Okay,
    {
        Kind::Okay
    }
}

/// The fixed wire value of each `Scope` variant.
pub open spec fn scope_code(s: Scope) -> int {
    match s {
        Scope::Internal => 0,
        Scope::Clientside => 1,
        Scope::Serverside => 2,
    }
}

/// The `Scope` owning a wire value, if any: exactly the values 0 through 2.
pub open spec fn scope_from_code(v: int) -> Option<Scope> {
    if v == 0 { Some(Scope::Internal) }
    else if v == 1 { Some(Scope::Clientside) }
    else if v == 2 { Some(Scope::Serverside) }
    else { None }
}

impl Scope {
    /// The integer this variant takes on the wire.
    pub fn code(&self) -> (r: i8)
        ensures
            r as int == scope_code(*self),
    {
        match self {
            Scope::Internal => 0,
            Scope::Clientside => 1,
            Scope::Serverside => 2,
        }
    }

    /// Recover a variant from a wire value; every value outside 0..=2 is
    /// rejected rather than coerced to a default.
    pub fn from_code(v: i64) -> (r: Option<Scope>)
        ensures
            r == scope_from_code(v as int),
    {
        if v == 0 { Some(Scope::Internal) }
        else if v == 1 { Some(Scope::Clientside) }
        else if v == 2 { Some(Scope::Serverside) }
        else { None }
    }
}

impl Default for Scope {
    fn default() -> (r: Self)
        ensures
            r == Scope::Internal,
    {
        Scope::Internal
    }
}

/// The fixed wire value of each `RetryMode` variant.
pub open spec fn retry_code(m: RetryMode) -> int {
    match m {
        RetryMode::Unknown => 0,
        RetryMode::Allowed => 1,
        RetryMode::Denied => 2,
    }
}

/// The `RetryMode` owning a wire value, if any: exactly the values 0 through 2.
pub open spec fn retry_from_code(v: int) -> Option<RetryMode> {
    if v == 0 { Some(RetryMode::Unknown) }
    else if v == 1 { Some(RetryMode::Allowed) }
    else if v == 2 { Some(RetryMode::Denied) }
    else { None }
}

impl RetryMode {
    /// The integer this variant takes on the wire.
    pub fn code(&self) -> (r: i8)
        ensures
            r as int == retry_code(*self),
    {
        match self {
            RetryMode::Unknown => 0,
            RetryMode::Allowed => 1,
            RetryMode::Denied => 2,
        }
    }

    /// Recover a variant from a wire value; every value outside 0..=2 is
    /// rejected rather than coerced to a default.
    pub fn from_code(v: i64) -> (r: Option<RetryMode>)
        ensures
            r == retry_from_code(v as int),
    {
        if v == 0 { Some(RetryMode::Unknown) }
        else if v == 1 { Some(RetryMode::Allowed) }
        else if v == 2 { Some(RetryMode::Denied) }
        else { None }
    }
}

impl Default for RetryMode {
    fn default() -> (r: Self)
        ensures
            r == RetryMode::Unknown,
    {
        RetryMode::Unknown
    }
}

/// The fixed wire value of each `PassThroughMode` variant.
pub open spec fn pass_code(m: PassThroughMode) -> int {
    match m {
        PassThroughMode::Auto => 0,
        PassThroughMode::Should => 1,
        PassThroughMode::Never => 2,
    }
}

/// The `PassThroughMode` owning a wire value, if any: exactly the values 0
/// through 2.
pub open spec fn pass_from_code(v: int) -> Option<PassThroughMode> {
    if v == 0 { Some(PassThroughMode::Auto) }
    else if v == 1 { Some(PassThroughMode::Should) }
    else if v == 2 { Some(PassThroughMode::Never) }
    else { None }
}

impl PassThroughMode {
    /// The integer this variant takes on the wire.
    pub fn code(&self) -> (r: i8)
        ensures
            r as int == pass_code(*self),
    {
        match self {
            PassThroughMode::Auto => 0,
            PassThroughMode::Should => 1,
            PassThroughMode::Never => 2,
        }
    }

    /// Recover a variant from a wire value; every value outside 0..=2 is
    /// rejected rather than coerced to a default.
    pub fn from_code(v: i64) -> (r: Option<PassThroughMode>)
        ensures
            r == pass_from_code(v as int),
    {
        if v == 0 { Some(PassThroughMode::Auto) }
        else if v == 1 { Some(PassThroughMode::Should) }
        else if v == 2 { Some(PassThroughMode::Never) }
        else { None }
    }
}

impl Default for PassThroughMode {
    fn default() -> (r: Self)
        ensures
            r == PassThroughMode::Auto,
    {
        PassThroughMode::Auto
    }
}

/// Every wire value is owned by at most one variant, and each variant's wire
/// value maps back to it: recovery is a left inverse of emission, for all four
/// classification enums.
pub proof fn lemma_code_round_trip(k: Kind, s: Scope, r: RetryMode, p: PassThroughMode)
    ensures
        kind_from_code(kind_code(k)) == Some(k),
        scope_from_code(scope_code(s)) == Some(s),
        retry_from_code(retry_code(r)) == Some(r),
        pass_from_code(pass_code(p)) == Some(p),
{
}

} // verus!
