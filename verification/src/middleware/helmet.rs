//! A collection of middleware that set security-related HTTP headers; each
//! constructor yields a header-writing middleware for the chain.

use vstd::prelude::*;

use crate::middleware::helmet::configs::{
    CrossOriginEmbedderPolicy, CrossOriginOpenerPolicy, CrossOriginResourcePolicy, ReferrerPolicy,
    XFrameOptions, XPermittedCrossDomainPolicy,
};
use crate::middleware::{Middleware, MwView};
use crate::strutil::{spec_dec, u128_to_string};

pub mod configs;
pub mod csp;

verus! {

/// Configuration options for the `Strict-Transport-Security` header.
#[derive(Debug, Clone, Copy)]
pub struct StrictTransportSecuirtyOptions {
    /// How many seconds browsers should remember to prefer HTTPS.
    pub max_age: u128,
    /// Whether the policy extends to subdomains.
    pub include_sub_domains: bool,
    /// Whether to add the `preload` directive.
    pub directives: bool,
}

impl Default for StrictTransportSecuirtyOptions {
    /// 180 days, extended to subdomains, without `preload`.
    fn default() -> (r: Self)
        ensures
            r.max_age == 15552000,
            r.include_sub_domains,
            !r.directives,
    {
        StrictTransportSecuirtyOptions {
            max_age: 15552000,
            include_sub_domains: true,
            directives: false,
        }
    }
}

/// The `Strict-Transport-Security` value the options denote.
pub open spec fn spec_sts_value(options: StrictTransportSecuirtyOptions) -> Seq<char> {
    "max-age="@ + spec_dec(options.max_age as nat) + (if options.include_sub_domains {
        "; includeSubDomains;"@
    } else {
        ""@
    }) + (if options.directives {
        "; preload"@
    } else {
        ""@
    })
}

/// The security-header middleware catalog; every method yields a middleware
/// that writes one header.
#[derive(Debug, Clone, Copy)]
pub struct Helmet;

impl Helmet {
    /// `Origin-Agent-Cluster: ?1` asks for origin-keyed agent clusters.
    pub fn origin_agent_cluster(&self) -> (r: Middleware)
        ensures
            r@ == MwView::SetHeader("Origin-Agent-Cluster"@, "?1"@),
    {
        Middleware::SetHeader(String::from_str("Origin-Agent-Cluster"), String::from_str("?1"))
    }

    /// `Strict-Transport-Security` tells browsers to prefer HTTPS.
    pub fn strict_transport_security(&self, options: StrictTransportSecuirtyOptions) -> (r:
        Middleware)
        ensures
            r@ == MwView::SetHeader("Strict-Transport-Security"@, spec_sts_value(options)),
    {
        let mut header = String::from_str("max-age=");
        let age = u128_to_string(options.max_age);
        header.append(age.as_str());
        if options.include_sub_domains {
            header.append("; includeSubDomains;");
        } else {
            header.append("");
        }
        if options.directives {
            header.append("; preload");
        } else {
            header.append("");
        }
        proof {
            assert(header@ =~= spec_sts_value(options));
        }
        Middleware::SetHeader(String::from_str("Strict-Transport-Security"), header)
    }

    /// `X-Content-Type-Options: nosniff` forbids MIME sniffing.
    pub fn x_content_type_options(&self) -> (r: Middleware)
        ensures
            r@ == MwView::SetHeader("X-Content-Type-Options"@, "nosniff"@),
    {
        Middleware::SetHeader(String::from_str("X-Content-Type-Options"), String::from_str("nosniff"))
    }

    /// `X-DNS-Prefetch-Control: off` disables DNS prefetching.
    pub fn x_dns_prefetch_control(&self) -> (r: Middleware)
        ensures
            r@ == MwView::SetHeader("X-DNS-Prefetch-Control"@, "off"@),
    {
        Middleware::SetHeader(String::from_str("X-DNS-Prefetch-Control"), String::from_str("off"))
    }

    /// `X-Download-Options: noopen` keeps downloads from opening in place.
    pub fn x_download_options(&self) -> (r: Middleware)
        ensures
            r@ == MwView::SetHeader("X-Download-Options"@, "noopen"@),
    {
        Middleware::SetHeader(String::from_str("X-Download-Options"), String::from_str("noopen"))
    }

    /// Removes the `X-Powered-By` header, which only advertises the server
    /// software.
    pub fn x_powered_by(&self) -> (r: Middleware)
        ensures
            r@ == MwView::RemoveHeader("X-Powered-By"@),
    {
        Middleware::RemoveHeader(String::from_str("X-Powered-By"))
    }

    /// `X-Frame-Options` restricts framing of the page.
    pub fn x_frame_options(&self, option: XFrameOptions) -> (r: Middleware)
        ensures
            r@ == MwView::SetHeader(
                "X-Frame-Options"@,
                match option {
                    XFrameOptions::SameOrigin => "SAMEORIGIN"@,
                    XFrameOptions::Deny => "DENY"@,
                },
            ),
    {
        let policy_string = match option {
            XFrameOptions::SameOrigin => "SAMEORIGIN",
            XFrameOptions::Deny => "DENY",
        };
        Middleware::SetHeader(String::from_str("X-Frame-Options"), String::from_str(policy_string))
    }

    /// `Cross-Origin-Embedder-Policy` controls what may be loaded
    /// cross-origin.
    pub fn cross_origin_embedder_policy(&self, policy: CrossOriginEmbedderPolicy) -> (r:
        Middleware)
        ensures
            r@ == MwView::SetHeader(
                "Cross-Origin-Embedder-Policy"@,
                match policy {
                    CrossOriginEmbedderPolicy::RequireCorp => "require-corp"@,
                    CrossOriginEmbedderPolicy::Credentialless => "credentialless"@,
                    CrossOriginEmbedderPolicy::UnsafeNone => "unsafe-none"@,
                },
            ),
    {
        let policy_string = match policy {
            CrossOriginEmbedderPolicy::RequireCorp => "require-corp",
            CrossOriginEmbedderPolicy::Credentialless => "credentialless",
            CrossOriginEmbedderPolicy::UnsafeNone => "unsafe-none",
        };
        Middleware::SetHeader(
            String::from_str("Cross-Origin-Embedder-Policy"),
            String::from_str(policy_string),
        )
    }

    /// `Cross-Origin-Opener-Policy` process-isolates the page.
    pub fn cross_origin_opener_policy(&self, policy: CrossOriginOpenerPolicy) -> (r: Middleware)
        ensures
            r@ == MwView::SetHeader(
                "Cross-Origin-Opener-Policy"@,
                match policy {
                    CrossOriginOpenerPolicy::SameOrigin => "same-origin"@,
                    CrossOriginOpenerPolicy::SameOriginAllowPopups => "same-origin-allow-popups"@,
                    CrossOriginOpenerPolicy::UnsafeNone => "unsafe-none"@,
                },
            ),
    {
        let policy_string = match policy {
            CrossOriginOpenerPolicy::SameOrigin => "same-origin",
            CrossOriginOpenerPolicy::SameOriginAllowPopups => "same-origin-allow-popups",
            CrossOriginOpenerPolicy::UnsafeNone => "unsafe-none",
        };
        Middleware::SetHeader(
            String::from_str("Cross-Origin-Opener-Policy"),
            String::from_str(policy_string),
        )
    }

    /// `Cross-Origin-Resource-Policy` restricts who may load resources.
    pub fn cross_origin_resource_policy(&self, policy: CrossOriginResourcePolicy) -> (r:
        Middleware)
        ensures
            r@ == MwView::SetHeader(
                "Cross-Origin-Resource-Policy"@,
                match policy {
                    CrossOriginResourcePolicy::SameOrigin => "same-origin"@,
                    CrossOriginResourcePolicy::SameSite => "same-site"@,
                    CrossOriginResourcePolicy::CrossOrigin => "cross-origin"@,
                },
            ),
    {
        let policy_string = match policy {
            CrossOriginResourcePolicy::SameOrigin => "same-origin",
            CrossOriginResourcePolicy::SameSite => "same-site",
            CrossOriginResourcePolicy::CrossOrigin => "cross-origin",
        };
        Middleware::SetHeader(
            String::from_str("Cross-Origin-Resource-Policy"),
            String::from_str(policy_string),
        )
    }

    /// `Referrer-Policy` controls the Referer request header; several
    /// policies join with commas.
    pub fn referrer_policy(&self, policies: Vec<ReferrerPolicy>) -> (r: Middleware)
        ensures
            r@ == MwView::SetHeader("Referrer-Policy"@, spec_join_policies(policies@)),
    {
        let n = policies.len();
        let mut value = String::new();
        let mut i: usize = 0;
        proof {
            assert(policies@.take(0) =~= Seq::<ReferrerPolicy>::empty());
        }
        while i < n
            invariant
                n == policies@.len(),
                0 <= i <= n,
                value@ == spec_join_policies(policies@.take(i as int)),
            decreases n - i,
        {
            if i > 0 {
                value.append(",");
            }
            let text = policies[i].to_string();
            value.append(text.as_str());
            proof {
                assert(policies@.take(i + 1) =~= policies@.take(i as int).push(
                    policies@[i as int],
                ));
                lemma_join_push(policies@.take(i as int), policies@[i as int]);
                assert(policies@.take(i as int).len() == i);
                assert(value@ =~= spec_join_policies(policies@.take(i + 1)));
            }
            i = i + 1;
        }
        proof {
            assert(policies@.take(n as int) =~= policies@);
        }
        Middleware::SetHeader(String::from_str("Referrer-Policy"), value)
    }

    /// `X-Permitted-Cross-Domain-Policies` restricts Adobe policy files.
    pub fn x_permitted_cross_domain_policies(&self, policy: XPermittedCrossDomainPolicy) -> (r:
        Middleware)
        ensures
            r@ == MwView::SetHeader(
                "X-Permitted-Cross-Domain-Policies"@,
                match policy {
                    XPermittedCrossDomainPolicy::All => "all"@,
                    XPermittedCrossDomainPolicy::ByContentType => "by-content-type"@,
                    XPermittedCrossDomainPolicy::MasterOnly => "master-only"@,
                    XPermittedCrossDomainPolicy::NonePermitted => "none"@,
                },
            ),
    {
        let header = match policy {
            XPermittedCrossDomainPolicy::All => "all",
            XPermittedCrossDomainPolicy::ByContentType => "by-content-type",
            XPermittedCrossDomainPolicy::MasterOnly => "master-only",
            XPermittedCrossDomainPolicy::NonePermitted => "none",
        };
        Middleware::SetHeader(
            String::from_str("X-Permitted-Cross-Domain-Policies"),
            String::from_str(header),
        )
    }
}

/// The comma-joined texts of a policy list.
pub open spec fn spec_join_policies(ps: Seq<ReferrerPolicy>) -> Seq<char>
    decreases ps.len(),
{
    if ps.len() == 0 {
        Seq::empty()
    } else if ps.len() == 1 {
        ps[0].spec_text()
    } else {
        ps[0].spec_text() + ","@ + spec_join_policies(ps.drop_first())
    }
}

proof fn lemma_join_push(ps: Seq<ReferrerPolicy>, p: ReferrerPolicy)
    ensures
        spec_join_policies(ps.push(p)) == (if ps.len() == 0 {
            p.spec_text()
        } else {
            spec_join_policies(ps) + ","@ + p.spec_text()
        }),
    decreases ps.len(),
{
    if ps.len() == 0 {
        assert(ps.push(p)[0] == p);
        assert(ps.push(p).len() == 1);
    } else {
        assert(ps.push(p)[0] == ps[0]);
        assert(ps.push(p).drop_first() =~= ps.drop_first().push(p));
        lemma_join_push(ps.drop_first(), p);
        if ps.len() == 1 {
            assert(spec_join_policies(ps) =~= ps[0].spec_text());
        } else {
            assert(ps[0].spec_text() + ","@ + (spec_join_policies(ps.drop_first()) + ","@
                + p.spec_text()) =~= (ps[0].spec_text() + ","@ + spec_join_policies(
                ps.drop_first(),
            )) + ","@ + p.spec_text());
        }
    }
}

impl Default for Helmet {
    /// The catalog itself carries no state.
    fn default() -> (r: Self)
        ensures
            r == Helmet,
    {
        Helmet
    }
}

} // verus!
