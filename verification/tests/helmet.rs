use krustie::middleware::helmet::configs::{
    CrossOriginEmbedderPolicy, ReferrerPolicy, XFrameOptions, XPermittedCrossDomainPolicy,
};
use krustie::middleware::helmet::csp::{ContentSecurityPolicy, Directive, DirectiveValues};
use krustie::middleware::helmet::{Helmet, StrictTransportSecuirtyOptions};
use krustie::middleware::Middleware;

fn header_of(m: Middleware) -> (String, String) {
    match m {
        Middleware::SetHeader(k, v) => (k, v),
        other => panic!("expected a header writer, got {:?}", header_kind(&other)),
    }
}

fn header_kind(m: &Middleware) -> &'static str {
    match m {
        Middleware::Gzip(_) => "gzip",
        Middleware::RateLimit(_) => "rate limit",
        Middleware::SetHeader(_, _) => "set header",
        Middleware::RemoveHeader(_) => "remove header",
    }
}

#[test]
fn helmet_headers() {
    let helmet = Helmet::default();

    let (k, v) = header_of(helmet.origin_agent_cluster());
    assert_eq!((k.as_str(), v.as_str()), ("Origin-Agent-Cluster", "?1"));

    let (k, v) = header_of(helmet.x_content_type_options());
    assert_eq!((k.as_str(), v.as_str()), ("X-Content-Type-Options", "nosniff"));

    let (k, v) = header_of(helmet.x_dns_prefetch_control());
    assert_eq!((k.as_str(), v.as_str()), ("X-DNS-Prefetch-Control", "off"));

    let (k, v) = header_of(helmet.x_download_options());
    assert_eq!((k.as_str(), v.as_str()), ("X-Download-Options", "noopen"));

    let (k, v) = header_of(helmet.x_frame_options(XFrameOptions::Deny));
    assert_eq!((k.as_str(), v.as_str()), ("X-Frame-Options", "DENY"));

    let (k, v) = header_of(
        helmet.cross_origin_embedder_policy(CrossOriginEmbedderPolicy::RequireCorp),
    );
    assert_eq!((k.as_str(), v.as_str()), ("Cross-Origin-Embedder-Policy", "require-corp"));

    let (k, v) = header_of(
        helmet.x_permitted_cross_domain_policies(XPermittedCrossDomainPolicy::NonePermitted),
    );
    assert_eq!((k.as_str(), v.as_str()), ("X-Permitted-Cross-Domain-Policies", "none"));

    match helmet.x_powered_by() {
        Middleware::RemoveHeader(k) => assert_eq!(k.as_str(), "X-Powered-By"),
        other => panic!("expected a header remover, got {}", header_kind(&other)),
    }
}

#[test]
fn helmet_strict_transport_security() {
    let helmet = Helmet::default();
    let options = StrictTransportSecuirtyOptions::default();
    assert_eq!(options.max_age, 15552000);
    let (k, v) = header_of(helmet.strict_transport_security(options));
    assert_eq!(k.as_str(), "Strict-Transport-Security");
    assert_eq!(v.as_str(), "max-age=15552000; includeSubDomains;");

    let custom = StrictTransportSecuirtyOptions {
        max_age: 60,
        include_sub_domains: false,
        directives: true,
    };
    let (_, v) = header_of(helmet.strict_transport_security(custom));
    assert_eq!(v.as_str(), "max-age=60; preload");
}

#[test]
fn helmet_referrer_policy() {
    let helmet = Helmet::default();
    let (k, v) = header_of(
        helmet.referrer_policy(vec![ReferrerPolicy::NoReferrer, ReferrerPolicy::SameOrigin]),
    );
    assert_eq!(k.as_str(), "Referrer-Policy");
    assert_eq!(v.as_str(), "no-referrer,same-origin");
    let (_, v) = header_of(helmet.referrer_policy(vec![]));
    assert_eq!(v.as_str(), "");
}

#[test]
fn content_security_policy_render() {
    let mut csp = ContentSecurityPolicy::new();
    csp.set_directive(Directive::DefaultSrc, vec![DirectiveValues::_Self]);
    csp.set_directive(
        Directive::ImgSrc,
        vec![DirectiveValues::_Self, DirectiveValues::Scheme("data".to_string())],
    );
    assert_eq!(csp.render(), "default-src 'self' ;img-src 'self' data: ;");

    csp.set_directive(Directive::DefaultSrc, vec![DirectiveValues::NoValue]);
    assert_eq!(csp.render(), "default-src  ;img-src 'self' data: ;");
}

#[test]
fn content_security_policy_default() {
    let csp = ContentSecurityPolicy::default();
    let text = csp.render();
    assert!(text.starts_with("default-src 'self' ;"));
    assert!(text.contains("font-src 'self' data: https: ;"));
    assert!(text.ends_with("upgrade-insecure-requests ;"));
}
