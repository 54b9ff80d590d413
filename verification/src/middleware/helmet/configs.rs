//! Configuration options for the security-header middleware.

use vstd::prelude::*;

verus! {

/// Options for the `X-Frame-Options` header.
#[derive(Eq, PartialEq, Structural, Debug, Clone, Copy)]
pub enum XFrameOptions {
    /// The page may only be framed by its own origin.
    SameOrigin,
    /// The page may not be framed at all.
    Deny,
}

/// Options for the `Cross-Origin-Embedder-Policy` header.
#[derive(Eq, PartialEq, Structural, Debug, Clone, Copy)]
pub enum CrossOriginEmbedderPolicy {
    /// Only same-origin or explicitly-marked resources may be loaded.
    RequireCorp,
    /// Cross-origin resources are loaded without credentials.
    Credentialless,
    /// No restriction.
    UnsafeNone,
}

/// Options for the `Cross-Origin-Opener-Policy` header.
#[derive(Eq, PartialEq, Structural, Debug, Clone, Copy)]
pub enum CrossOriginOpenerPolicy {
    /// Browsing context group is restricted to same-origin documents.
    SameOrigin,
    /// Same-origin, but popups it opens may stay in the group.
    SameOriginAllowPopups,
    /// No restriction.
    UnsafeNone,
}

/// Options for the `Cross-Origin-Resource-Policy` header.
#[derive(Eq, PartialEq, Structural, Debug, Clone, Copy)]
pub enum CrossOriginResourcePolicy {
    /// Only same-origin documents may load the resource.
    SameOrigin,
    /// Only documents of the same site may load the resource.
    SameSite,
    /// Any origin may load the resource.
    CrossOrigin,
}

/// Options for the `Referrer-Policy` header.
#[derive(Eq, PartialEq, Structural, Debug, Clone, Copy)]
pub enum ReferrerPolicy {
    /// Send no referrer at all.
    NoReferrer,
    /// Send no referrer to less secure destinations.
    NoReferrerWhenDowngrade,
    /// Send the referrer to the same origin only.
    SameOrigin,
    /// Send only the origin.
    Origin,
    /// Send the origin to equally secure destinations only.
    StrictOrigin,
    /// Full referrer to the same origin, only the origin elsewhere.
    OriginWhenCrossOrigin,
    /// Like the previous, but nothing to less secure destinations.
    StrictOriginWhenCrossOrigin,
    /// Always send the full referrer.
    UnsafeUrl,
}

/// Options for the `X-Permitted-Cross-Domain-Policies` header.
#[derive(Eq, PartialEq, Structural, Debug, Clone, Copy)]
pub enum XPermittedCrossDomainPolicy {
    /// All policy files are permitted.
    All,
    /// Only policy files served with a permitted content type.
    ByContentType,
    /// Only the master policy file is permitted.
    MasterOnly,
    /// No policy files are permitted.
    NonePermitted,
}

impl ReferrerPolicy {
    /// The header text of the policy.
    pub open spec fn spec_text(&self) -> Seq<char> {
        match self {
            ReferrerPolicy::NoReferrer => "no-referrer"@,
            ReferrerPolicy::NoReferrerWhenDowngrade => "no-referrer-when-downgrade"@,
            ReferrerPolicy::SameOrigin => "same-origin"@,
            ReferrerPolicy::Origin => "origin"@,
            ReferrerPolicy::StrictOrigin => "strict-origin"@,
            ReferrerPolicy::OriginWhenCrossOrigin => "origin-when-cross-origin"@,
            ReferrerPolicy::StrictOriginWhenCrossOrigin => "strict-origin-when-cross-origin"@,
            ReferrerPolicy::UnsafeUrl => "unsafe-url"@,
        }
    }

    /// The header text of the policy.
    pub fn to_string(&self) -> (r: String)
        ensures
            r@ == self.spec_text(),
    {
        match self {
            ReferrerPolicy::NoReferrer => String::from_str("no-referrer"),
            ReferrerPolicy::NoReferrerWhenDowngrade => String::from_str(
                "no-referrer-when-downgrade",
            ),
            ReferrerPolicy::SameOrigin => String::from_str("same-origin"),
            ReferrerPolicy::Origin => String::from_str("origin"),
            ReferrerPolicy::StrictOrigin => String::from_str("strict-origin"),
            ReferrerPolicy::OriginWhenCrossOrigin => String::from_str("origin-when-cross-origin"),
            ReferrerPolicy::StrictOriginWhenCrossOrigin => String::from_str(
                "strict-origin-when-cross-origin",
            ),
            ReferrerPolicy::UnsafeUrl => String::from_str("unsafe-url"),
        }
    }
}

} // verus!
