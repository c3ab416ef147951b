//! Best-effort address lookup: a resolver is taken from a fixed priority
//! chain of configurations, and a failed lookup yields a sentinel text.

use vstd::prelude::*;
use vstd::string::*;
use trust_dns_resolver::config::{ResolverConfig, ResolverOpts};
use trust_dns_resolver::Resolver;

verus! {

#[verifier::external_type_specification]
#[verifier::external_body]
pub struct ExResolver(Resolver);

#[verifier::external_type_specification]
#[verifier::external_body]
pub struct ExResolverConfig(ResolverConfig);

#[verifier::external_type_specification]
#[verifier::external_body]
pub struct ExResolverOpts(ResolverOpts);

/// Relies on trust-dns-resolver's Quad9 configuration constructor.
pub assume_specification[ ResolverConfig::quad9 ]() -> ResolverConfig;

/// Relies on trust-dns-resolver's Cloudflare configuration constructor.
pub assume_specification[ ResolverConfig::cloudflare ]() -> ResolverConfig;

/// Relies on trust-dns-resolver's default configuration (Google's servers).
pub assume_specification[ <ResolverConfig as core::default::Default>::default ]() -> ResolverConfig;

/// Relies on trust-dns-resolver's default resolver options.
pub assume_specification[ <ResolverOpts as core::default::Default>::default ]() -> ResolverOpts;

/// Relies on `Resolver::from_system_conf`: a resolver from the system's
/// configuration, or `None` where that fails.
#[verifier::external_body]
fn system_resolver() -> (r: Option<Resolver>) {
    Resolver::from_system_conf().ok()
}

/// Relies on `Resolver::new`: a resolver for the configuration, or `None`
/// where its runtime cannot be built.
#[verifier::external_body]
fn new_resolver(config: ResolverConfig, options: ResolverOpts) -> (r: Option<Resolver>) {
    Resolver::new(config, options).ok()
}

/// A character of the textual form of an IP address: a digit, a hex letter,
/// `.` or `:`.
pub open spec fn is_ip_char(c: char) -> bool {
    ('0' <= c && c <= '9') || ('a' <= c && c <= 'f') || ('A' <= c && c <= 'F') || c == '.' || c
        == ':'
}

/// The textual form of an IP address: non-empty, made of address characters.
pub open spec fn is_ip_text(s: Seq<char>) -> bool {
    s.len() > 0 && forall|i: int| 0 <= i < s.len() ==> is_ip_char(#[trigger] s[i])
}

/// Relies on `Resolver::lookup_ip`: the addresses found for `domain`, in the
/// order returned, or `None` where the lookup failed; each is rendered by
/// `IpAddr`'s `Display` (dotted decimal, or hexadecimal groups with `:`).
#[verifier::external_body]
fn lookup_addresses(resolver: &Resolver, domain: &str) -> (r: Option<Vec<String>>)
    ensures
        r is Some ==> forall|i: int| 0 <= i < r->0@.len() ==> is_ip_text(#[trigger] r->0@[i]@),
{
    resolver.lookup_ip(domain).ok().map(|found| found.iter().map(|ip| ip.to_string()).collect())
}

/// A resolver configuration of the fallback chain.
#[derive(PartialEq, Eq, Structural, Clone, Copy, Debug)]
pub enum ResolverSource {
    /// The system's own configuration.
    System,
    /// The Quad9 public resolver.
    Quad9,
    /// The Cloudflare public resolver.
    Cloudflare,
    /// The built-in default configuration.
    Fallback,
}

/// The configuration tried after `s`, in priority order.
pub open spec fn next_source(s: ResolverSource) -> Option<ResolverSource> {
    match s {
        ResolverSource::System => Some(ResolverSource::Quad9),
        ResolverSource::Quad9 => Some(ResolverSource::Cloudflare),
        ResolverSource::Cloudflare => Some(ResolverSource::Fallback),
        ResolverSource::Fallback => None,
    }
}

/// The configurations in priority order.
pub open spec fn chain() -> Seq<ResolverSource> {
    seq![
        ResolverSource::System,
        ResolverSource::Quad9,
        ResolverSource::Cloudflare,
        ResolverSource::Fallback,
    ]
}

/// The position of `s` in the chain.
pub open spec fn rank(s: ResolverSource) -> nat {
    match s {
        ResolverSource::System => 0,
        ResolverSource::Quad9 => 1,
        ResolverSource::Cloudflare => 2,
        ResolverSource::Fallback => 3,
    }
}

/// One step of the chain.
#[derive(PartialEq, Eq, Structural, Clone, Copy, Debug)]
pub enum ResolverStep {
    /// The configuration was built: use it.
    Use(ResolverSource),
    /// It could not be built: try this one next.
    Try(ResolverSource),
    /// No configuration could be built.
    Exhausted,
}

pub open spec fn step_spec(current: ResolverSource, built: bool) -> ResolverStep {
    if built {
        ResolverStep::Use(current)
    } else {
        match next_source(current) {
            Some(n) => ResolverStep::Try(n),
            None => ResolverStep::Exhausted,
        }
    }
}

/// Decides the next step after trying to build `current`.
pub fn resolver_step(current: ResolverSource, built: bool) -> (r: ResolverStep)
    ensures
        r == step_spec(current, built),
{
    if built {
        ResolverStep::Use(current)
    } else {
        match current {
            ResolverSource::System => ResolverStep::Try(ResolverSource::Quad9),
            ResolverSource::Quad9 => ResolverStep::Try(ResolverSource::Cloudflare),
            ResolverSource::Cloudflare => ResolverStep::Try(ResolverSource::Fallback),
            ResolverSource::Fallback => ResolverStep::Exhausted,
        }
    }
}

/// When the system resolver cannot be built, the next configuration in
/// priority order is tried, and a configuration that builds is the one used.
pub proof fn lemma_fallback_order(s: ResolverSource)
    ensures
        step_spec(ResolverSource::System, false) == ResolverStep::Try(ResolverSource::Quad9),
        step_spec(s, true) == ResolverStep::Use(s),
        step_spec(s, false) is Try ==> rank(step_spec(s, false)->Try_0) == rank(s) + 1,
        step_spec(s, false) is Exhausted <==> s == ResolverSource::Fallback,
{
}

fn build_resolver(source: ResolverSource) -> (r: Option<Resolver>) {
    match source {
        ResolverSource::System => system_resolver(),
        ResolverSource::Quad9 => new_resolver(ResolverConfig::quad9(), ResolverOpts::default()),
        ResolverSource::Cloudflare => new_resolver(
            ResolverConfig::cloudflare(),
            ResolverOpts::default(),
        ),
        ResolverSource::Fallback => new_resolver(ResolverConfig::default(), ResolverOpts::default()),
    }
}

/// The configuration a built resolver came from.
pub open spec fn source_of(built: (Resolver, ResolverSource)) -> ResolverSource {
    built.1
}

/// Walks the chain from the system configuration and returns the first
/// resolver that could be built, with its configuration; `None` when none
/// could. The ghost record lists the configurations tried, in order: a
/// prefix of the chain whose entries before the last failed to build.
pub fn get_resolver() -> (r: (Option<(Resolver, ResolverSource)>, Ghost<Seq<ResolverSource>>))
    ensures
        1 <= r.1@.len() <= 4,
        r.1@ == chain().take(r.1@.len() as int),
        r.0 is Some ==> source_of(r.0->0) == r.1@.last(),
        r.0 is None ==> r.1@ == chain(),
{
    let mut current = ResolverSource::System;
    let ghost mut tried: Seq<ResolverSource> = Seq::empty();
    assert(chain().take(0) =~= tried);
    loop
        invariant
            tried == chain().take(rank(current) as int),
            chain()[rank(current) as int] == current,
        decreases 3 - rank(current),
    {
        proof {
            assert(chain().take(rank(current) + 1int) =~= tried.push(current));
            tried = tried.push(current);
        }
        match build_resolver(current) {
            Some(resolver) => {
                return (Some((resolver, current)), Ghost(tried));
            },
            None => match resolver_step(current, false) {
                ResolverStep::Try(next) => {
                    current = next;
                },
                _ => {
                    assert(tried =~= chain());
                    return (None, Ghost(tried));
                },
            },
        }
    }
}

/// What stands in place of an address when none was found.
pub open spec fn no_address() -> Seq<char> {
    "no IP address found"@
}

/// The first address found, or the sentinel when the lookup failed or found
/// nothing.
pub fn address_or_sentinel(found: Option<Vec<String>>) -> (r: String)
    ensures
        found is Some && found->0@.len() > 0 ==> r@ == found->0@[0]@,
        !(found is Some && found->0@.len() > 0) ==> r@ == no_address(),
{
    match found {
        Some(addresses) => {
            if addresses.len() > 0 {
                addresses[0].clone()
            } else {
                String::from_str("no IP address found")
            }
        },
        None => String::from_str("no IP address found"),
    }
}

/// Looks up `domain` and gives its first address, or the sentinel when the
/// lookup fails; `None` only when no resolver of the chain could be built.
pub fn get_ip(domain: &str) -> (r: Option<String>)
    ensures
        r is Some ==> (r->0@ == no_address() || is_ip_text(r->0@)),
{
    let (built, _) = get_resolver();
    match built {
        Some((resolver, _)) => {
            let found = lookup_addresses(&resolver, domain);
            let text = address_or_sentinel(found);
            Some(text)
        },
        None => None,
    }
}

} // verus!
