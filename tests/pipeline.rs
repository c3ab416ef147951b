use findomain::domains::{filter_subdomains, merge_results, DomainSet};
use findomain::output::{backup_file_name, collect_subdomains, output_line, output_lines};
use findomain::resolve::{address_or_sentinel, resolver_step, ResolverSource, ResolverStep};
use findomain::sources::{
    classify_request_failure, crtsh_db_step, failure_message, normalize_response, CrtshStep,
    FetchFailure, IntoSubdomains, RequestFailure, ResponseCertSpotter, ResponseCrtsh,
    ResponseDataFacebook, ResponseDataSpyse, ResponseDataVirusTotal, SubdomainsBufferover,
    SubdomainsCertSpotter, SubdomainsCrtsh, SubdomainsFacebook, SubdomainsSpyse,
    SubdomainsThreadcrowd, SubdomainsVirustotal, SubdomainsVirustotalApikey,
};
use findomain::target::{build_queries, choose_facebook_token, normalize_target};

fn strings(items: &[&str]) -> Vec<String> {
    items.iter().map(|s| s.to_string()).collect()
}

fn sorted(set: &DomainSet) -> Vec<String> {
    let mut v = set.to_vec();
    v.sort();
    v
}

#[test]
fn normalize_strips_scheme_www_and_slash() {
    assert_eq!(normalize_target("https://www.Example.com/"), "Example.com");
    assert_eq!(normalize_target("http://example.com"), "example.com");
    assert_eq!(normalize_target("www.example.com"), "example.com");
    assert_eq!(normalize_target("example.com"), "example.com");
}

#[test]
fn normalize_strips_each_prefix_once_in_any_order() {
    assert_eq!(normalize_target("www.https://example.com"), "example.com");
    assert_eq!(normalize_target("www.www.example.com"), "www.example.com");
    assert_eq!(normalize_target("example.com//"), "example.com/");
    assert_eq!(normalize_target(""), "");
}

#[test]
fn filter_keeps_only_true_subdomains() {
    let set = DomainSet::from_vec(&strings(&[
        "a.example.com",
        "*.example.com",
        ".example.com",
        "b.notexample.com",
        "example.com",
    ]));
    let kept = filter_subdomains(&set, "example.com");
    assert_eq!(sorted(&kept), strings(&["a.example.com"]));
}

#[test]
fn filter_is_idempotent() {
    let set = DomainSet::from_vec(&strings(&["a.example.com", "x.other.org", "b.example.com"]));
    let once = filter_subdomains(&set, "example.com");
    let twice = filter_subdomains(&once, "example.com");
    assert_eq!(sorted(&once), sorted(&twice));
    assert_eq!(sorted(&once), strings(&["a.example.com", "b.example.com"]));
}

#[test]
fn merge_holds_each_name_once() {
    let first = DomainSet::from_vec(&strings(&["a.example.com", "b.example.com"]));
    let second = DomainSet::from_vec(&strings(&["a.example.com"]));
    let merged = merge_results(&vec![Some(first), None, Some(second)]);
    assert_eq!(merged.len(), 2);
    assert_eq!(sorted(&merged), strings(&["a.example.com", "b.example.com"]));
}

#[test]
fn domain_set_ignores_repeated_names() {
    let mut set = DomainSet::new();
    set.insert("a.example.com".to_string());
    set.insert("a.example.com".to_string());
    assert_eq!(set.len(), 1);
    assert!(set.contains("a.example.com"));
    assert!(!set.contains("b.example.com"));
}

#[test]
fn well_formed_empty_response_is_some() {
    let empty: Result<Vec<String>, FetchFailure> = Ok(Vec::new());
    let r = normalize_response(empty).expect("well-formed response");
    assert_eq!(r.len(), 0);
    let bad: Result<ResponseDataSpyse, FetchFailure> = Err(FetchFailure::Json);
    assert!(normalize_response(bad).is_none());
    let failed: Result<SubdomainsThreadcrowd, FetchFailure> =
        Err(FetchFailure::Request(RequestFailure::Timeout));
    assert!(normalize_response(failed).is_none());
}

#[test]
fn certspotter_names_are_flattened() {
    let response = ResponseCertSpotter {
        issuances: vec![
            SubdomainsCertSpotter { dns_names: strings(&["a.example.com", "b.example.com"]) },
            SubdomainsCertSpotter { dns_names: strings(&["b.example.com", "c.example.com"]) },
        ],
    };
    let set = response.into_subdomains();
    assert_eq!(sorted(&set), strings(&["a.example.com", "b.example.com", "c.example.com"]));
}

#[test]
fn facebook_names_are_flattened() {
    let response = ResponseDataFacebook {
        data: vec![
            SubdomainsFacebook { domains: strings(&["x.example.com"]) },
            SubdomainsFacebook { domains: strings(&[]) },
            SubdomainsFacebook { domains: strings(&["y.example.com", "x.example.com"]) },
        ],
    };
    assert_eq!(sorted(&response.into_subdomains()), strings(&["x.example.com", "y.example.com"]));
}

#[test]
fn single_field_records_are_projected() {
    let crtsh = ResponseCrtsh {
        entries: vec![
            SubdomainsCrtsh { name_value: "a.example.com".to_string() },
            SubdomainsCrtsh { name_value: "a.example.com".to_string() },
        ],
    };
    assert_eq!(sorted(&crtsh.into_subdomains()), strings(&["a.example.com"]));
    let vt = ResponseDataVirusTotal {
        data: vec![SubdomainsVirustotal { id: "v.example.com".to_string() }],
    };
    assert_eq!(sorted(&vt.into_subdomains()), strings(&["v.example.com"]));
    let spyse = ResponseDataSpyse {
        records: vec![
            SubdomainsSpyse { domain: "s.example.com".to_string() },
            SubdomainsSpyse { domain: "t.example.com".to_string() },
        ],
    };
    assert_eq!(sorted(&spyse.into_subdomains()), strings(&["s.example.com", "t.example.com"]));
}

#[test]
fn flat_lists_are_taken_as_they_are() {
    let tc = SubdomainsThreadcrowd { subdomains: strings(&["m.example.com", "n.example.com"]) };
    assert_eq!(sorted(&tc.into_subdomains()), strings(&["m.example.com", "n.example.com"]));
    let vk = SubdomainsVirustotalApikey { subdomains: strings(&["k.example.com"]) };
    assert_eq!(sorted(&vk.into_subdomains()), strings(&["k.example.com"]));
    let list = strings(&["l.example.com", "l.example.com"]);
    assert_eq!(sorted(&list.into_subdomains()), strings(&["l.example.com"]));
}

#[test]
fn bufferover_entries_are_split_on_commas() {
    let response = SubdomainsBufferover {
        fdns_a: strings(&["1.2.3.4,a.example.com", "5.6.7.8,b.example.com"]),
    };
    assert_eq!(
        sorted(&response.into_subdomains()),
        strings(&["1.2.3.4", "5.6.7.8", "a.example.com", "b.example.com"])
    );
}

#[test]
fn request_failures_are_classified_in_order() {
    assert_eq!(classify_request_failure(true, true, true, true), RequestFailure::Timeout);
    assert_eq!(classify_request_failure(false, true, true, false), RequestFailure::Redirect);
    assert_eq!(classify_request_failure(false, false, true, true), RequestFailure::ClientError);
    assert_eq!(classify_request_failure(false, false, false, true), RequestFailure::ServerError);
    assert_eq!(classify_request_failure(false, false, false, false), RequestFailure::Other);
}

#[test]
fn failure_messages_name_the_source() {
    assert_eq!(
        failure_message("Spyse", FetchFailure::Json, "bad body"),
        "An error occurred while parsing the JSON obtained from the Spyse API. Error description: bad body."
    );
    assert_eq!(
        failure_message("Crtsh", FetchFailure::Request(RequestFailure::Timeout), "slow"),
        "A timeout error has occurred while processing the request in the Crtsh API. Error description: slow"
    );
    assert_eq!(
        failure_message("X", FetchFailure::Request(RequestFailure::ServerError), "500"),
        "A server error has occurred sending the request to the X API. Error description: 500"
    );
}

#[test]
fn crtsh_database_failure_falls_back_to_api() {
    assert!(matches!(crtsh_db_step(None), CrtshStep::FallBackToApi));
    match crtsh_db_step(Some(strings(&["a.example.com", "a.example.com"]))) {
        CrtshStep::Found(set) => assert_eq!(sorted(&set), strings(&["a.example.com"])),
        CrtshStep::FallBackToApi => panic!("rows were given"),
    }
}

#[test]
fn queries_embed_target_and_credentials() {
    let q = build_queries("example.com", "sp", "fb", "");
    assert_eq!(
        q.certspotter,
        "https://api.certspotter.com/v1/issuances?domain=example.com&include_subdomains=true&expand=dns_names"
    );
    assert_eq!(q.crtsh, "https://crt.sh/?q=%.example.com&output=json");
    assert_eq!(q.spyse, "https://api.spyse.com/v1/subdomains?domain=example.com&api_token=sp");
    assert_eq!(
        q.facebook,
        "https://graph.facebook.com/certificates?query=example.com&fields=domains&limit=10000&access_token=fb"
    );
    assert_eq!(q.bufferover, "http://dns.bufferover.run/dns?q=example.com");
    assert!(q.virustotal_apikey.is_none());
    let keyed = build_queries("example.com", "", "", "key");
    assert_eq!(
        keyed.virustotal_apikey.as_deref(),
        Some("https://www.virustotal.com/vtapi/v2/domain/report?apikey=key&domain=example.com")
    );
}

#[test]
fn facebook_token_prefers_configured_one() {
    let pool = strings(&["p1", "p2"]);
    assert_eq!(choose_facebook_token("mine", &pool), "mine");
    let drawn = choose_facebook_token("", &pool);
    assert!(drawn == "p1" || drawn == "p2");
    assert_eq!(choose_facebook_token("", &Vec::new()), "");
}

#[test]
fn backup_name_replaces_extension() {
    assert_eq!(backup_file_name("target.txt"), "target.old.txt");
    assert_eq!(backup_file_name("a.b.txt"), "a.b.old.txt");
    assert_eq!(backup_file_name("noext"), "old.txt");
}

#[test]
fn output_line_formats() {
    assert_eq!(output_line("a.example.com", None), "a.example.com");
    assert_eq!(output_line("a.example.com", Some("1.2.3.4")), "a.example.com,1.2.3.4");
}

#[test]
fn first_address_or_sentinel() {
    assert_eq!(address_or_sentinel(Some(strings(&["1.1.1.1", "2.2.2.2"]))), "1.1.1.1");
    assert_eq!(address_or_sentinel(Some(Vec::new())), "no IP address found");
    assert_eq!(address_or_sentinel(None), "no IP address found");
}

#[test]
fn resolver_chain_moves_on_after_failure() {
    assert_eq!(
        resolver_step(ResolverSource::System, false),
        ResolverStep::Try(ResolverSource::Quad9)
    );
    assert_eq!(
        resolver_step(ResolverSource::Quad9, true),
        ResolverStep::Use(ResolverSource::Quad9)
    );
    assert_eq!(
        resolver_step(ResolverSource::Cloudflare, false),
        ResolverStep::Try(ResolverSource::Fallback)
    );
    assert_eq!(resolver_step(ResolverSource::Fallback, false), ResolverStep::Exhausted);
}

#[test]
fn end_to_end_two_sources() {
    let first = DomainSet::from_vec(&strings(&["a.findomain.example"]));
    let second = DomainSet::from_vec(&strings(&["b.findomain.example", "*.findomain.example"]));
    let found = collect_subdomains(&vec![Some(first), Some(second)], "findomain.example");
    assert_eq!(found.len(), 2);
    let mut lines = output_lines(&found, false).expect("no lookup needed");
    lines.sort();
    assert_eq!(lines, strings(&["a.findomain.example", "b.findomain.example"]));
}
