//! The response shape of each source and its projection into a flat set of
//! names, and the outcome of one fetch.

use vstd::prelude::*;
use vstd::string::*;
use crate::domains::{
    lemma_names_of_take, lemma_names_of_views, lemma_union_all_take, names_of, union_all,
    DomainSet,
};
use crate::text::{concat2, concat3, split_on, split_spec};

verus! {

/// A parsed response that can be flattened into the names it reports.
pub trait IntoSubdomains: Sized {
    /// The names this response reports.
    spec fn subdomain_names(&self) -> Set<Seq<char>>;

    fn into_subdomains(self) -> (r: DomainSet)
        ensures
            r.wf(),
            r@ == self.subdomain_names();
}

/// The names held in one field of each record.
pub open spec fn field_names<T>(records: Seq<T>, field: spec_fn(T) -> String) -> Set<Seq<char>> {
    names_of(records.map_values(field))
}

/// The names held in a list field of each record, all together.
pub open spec fn nested_names<T>(records: Seq<T>, field: spec_fn(T) -> Vec<String>) -> Set<
    Seq<char>,
> {
    union_all(records.map_values(|r: T| names_of(field(r)@)))
}

/// A flat list of names (the Sublist3r response).
impl IntoSubdomains for Vec<String> {
    open spec fn subdomain_names(&self) -> Set<Seq<char>> {
        names_of(self@)
    }

    fn into_subdomains(self) -> (r: DomainSet) {
        DomainSet::from_vec(&self)
    }
}

/// One issuance of the CertSpotter API.
pub struct SubdomainsCertSpotter {
    pub dns_names: Vec<String>,
}

/// The issuances that CertSpotter returns.
pub struct ResponseCertSpotter {
    pub issuances: Vec<SubdomainsCertSpotter>,
}

impl IntoSubdomains for ResponseCertSpotter {
    open spec fn subdomain_names(&self) -> Set<Seq<char>> {
        nested_names(self.issuances@, |s: SubdomainsCertSpotter| s.dns_names)
    }

    fn into_subdomains(self) -> (r: DomainSet) {
        let ghost sets = self.issuances@.map_values(
            |x: SubdomainsCertSpotter| names_of((|s: SubdomainsCertSpotter| s.dns_names)(x)@),
        );
        let mut r = DomainSet::new();
        let mut i: usize = 0;
        while i < self.issuances.len()
            invariant
                r.wf(),
                i <= self.issuances@.len(),
                sets == self.issuances@.map_values(
                    |x: SubdomainsCertSpotter| names_of((|s: SubdomainsCertSpotter| s.dns_names)(x)@),
                ),
                r@ == union_all(sets.take(i as int)),
            decreases self.issuances@.len() - i,
        {
            proof {
                lemma_union_all_take(sets, i as int);
            }
            let part = DomainSet::from_vec(&self.issuances[i].dns_names);
            r.extend(&part);
            i = i + 1;
        }
        assert(sets.take(i as int) =~= sets);
        r
    }
}

/// One certificate of the certificate-transparency API.
pub struct SubdomainsFacebook {
    pub domains: Vec<String>,
}

/// The certificates that the certificate-transparency API returns.
pub struct ResponseDataFacebook {
    pub data: Vec<SubdomainsFacebook>,
}

impl IntoSubdomains for ResponseDataFacebook {
    open spec fn subdomain_names(&self) -> Set<Seq<char>> {
        nested_names(self.data@, |s: SubdomainsFacebook| s.domains)
    }

    fn into_subdomains(self) -> (r: DomainSet) {
        let ghost sets = self.data@.map_values(
            |x: SubdomainsFacebook| names_of((|s: SubdomainsFacebook| s.domains)(x)@),
        );
        let mut r = DomainSet::new();
        let mut i: usize = 0;
        while i < self.data.len()
            invariant
                r.wf(),
                i <= self.data@.len(),
                sets == self.data@.map_values(
                    |x: SubdomainsFacebook| names_of((|s: SubdomainsFacebook| s.domains)(x)@),
                ),
                r@ == union_all(sets.take(i as int)),
            decreases self.data@.len() - i,
        {
            proof {
                lemma_union_all_take(sets, i as int);
            }
            let part = DomainSet::from_vec(&self.data[i].domains);
            r.extend(&part);
            i = i + 1;
        }
        assert(sets.take(i as int) =~= sets);
        r
    }
}

/// One entry of the crt.sh API.
pub struct SubdomainsCrtsh {
    pub name_value: String,
}

/// The entries that the crt.sh API returns.
pub struct ResponseCrtsh {
    pub entries: Vec<SubdomainsCrtsh>,
}

impl IntoSubdomains for ResponseCrtsh {
    open spec fn subdomain_names(&self) -> Set<Seq<char>> {
        field_names(self.entries@, |s: SubdomainsCrtsh| s.name_value)
    }

    fn into_subdomains(self) -> (r: DomainSet) {
        let ghost names = self.entries@.map_values(|s: SubdomainsCrtsh| s.name_value);
        let mut r = DomainSet::new();
        let mut i: usize = 0;
        while i < self.entries.len()
            invariant
                r.wf(),
                i <= self.entries@.len(),
                names == self.entries@.map_values(|s: SubdomainsCrtsh| s.name_value),
                r@ == names_of(names.take(i as int)),
            decreases self.entries@.len() - i,
        {
            proof {
                lemma_names_of_take(names, i as int);
            }
            r.insert(self.entries[i].name_value.clone());
            i = i + 1;
        }
        assert(names.take(i as int) =~= names);
        r
    }
}

/// One subdomain record of the VirusTotal web API.
pub struct SubdomainsVirustotal {
    pub id: String,
}

/// The subdomain listing of the VirusTotal web API.
pub struct ResponseDataVirusTotal {
    pub data: Vec<SubdomainsVirustotal>,
}

impl IntoSubdomains for ResponseDataVirusTotal {
    open spec fn subdomain_names(&self) -> Set<Seq<char>> {
        field_names(self.data@, |s: SubdomainsVirustotal| s.id)
    }

    fn into_subdomains(self) -> (r: DomainSet) {
        let ghost names = self.data@.map_values(|s: SubdomainsVirustotal| s.id);
        let mut r = DomainSet::new();
        let mut i: usize = 0;
        while i < self.data.len()
            invariant
                r.wf(),
                i <= self.data@.len(),
                names == self.data@.map_values(|s: SubdomainsVirustotal| s.id),
                r@ == names_of(names.take(i as int)),
            decreases self.data@.len() - i,
        {
            proof {
                lemma_names_of_take(names, i as int);
            }
            r.insert(self.data[i].id.clone());
            i = i + 1;
        }
        assert(names.take(i as int) =~= names);
        r
    }
}

/// One record of the Spyse API.
pub struct SubdomainsSpyse {
    pub domain: String,
}

/// The subdomain listing of the Spyse API.
pub struct ResponseDataSpyse {
    pub records: Vec<SubdomainsSpyse>,
}

impl IntoSubdomains for ResponseDataSpyse {
    open spec fn subdomain_names(&self) -> Set<Seq<char>> {
        field_names(self.records@, |s: SubdomainsSpyse| s.domain)
    }

    fn into_subdomains(self) -> (r: DomainSet) {
        let ghost names = self.records@.map_values(|s: SubdomainsSpyse| s.domain);
        let mut r = DomainSet::new();
        let mut i: usize = 0;
        while i < self.records.len()
            invariant
                r.wf(),
                i <= self.records@.len(),
                names == self.records@.map_values(|s: SubdomainsSpyse| s.domain),
                r@ == names_of(names.take(i as int)),
            decreases self.records@.len() - i,
        {
            proof {
                lemma_names_of_take(names, i as int);
            }
            r.insert(self.records[i].domain.clone());
            i = i + 1;
        }
        assert(names.take(i as int) =~= names);
        r
    }
}

/// The domain report of the ThreatCrowd API.
pub struct SubdomainsThreadcrowd {
    pub subdomains: Vec<String>,
}

impl IntoSubdomains for SubdomainsThreadcrowd {
    open spec fn subdomain_names(&self) -> Set<Seq<char>> {
        names_of(self.subdomains@)
    }

    fn into_subdomains(self) -> (r: DomainSet) {
        DomainSet::from_vec(&self.subdomains)
    }
}

/// The domain report of the keyed VirusTotal API.
pub struct SubdomainsVirustotalApikey {
    pub subdomains: Vec<String>,
}

impl IntoSubdomains for SubdomainsVirustotalApikey {
    open spec fn subdomain_names(&self) -> Set<Seq<char>> {
        names_of(self.subdomains@)
    }

    fn into_subdomains(self) -> (r: DomainSet) {
        DomainSet::from_vec(&self.subdomains)
    }
}

/// The names in the comma-joined entries of a list.
pub open spec fn comma_joined_names(entries: Seq<String>) -> Set<Seq<char>> {
    union_all(entries.map_values(|e: String| split_spec(e@, ',').to_set()))
}

/// The forward-DNS listing of the Bufferover API: each entry joins several
/// values with commas.
pub struct SubdomainsBufferover {
    pub fdns_a: Vec<String>,
}

impl IntoSubdomains for SubdomainsBufferover {
    open spec fn subdomain_names(&self) -> Set<Seq<char>> {
        comma_joined_names(self.fdns_a@)
    }

    fn into_subdomains(self) -> (r: DomainSet) {
        let ghost sets = self.fdns_a@.map_values(|e: String| split_spec(e@, ',').to_set());
        let mut r = DomainSet::new();
        let mut i: usize = 0;
        while i < self.fdns_a.len()
            invariant
                r.wf(),
                i <= self.fdns_a@.len(),
                sets == self.fdns_a@.map_values(|e: String| split_spec(e@, ',').to_set()),
                r@ == union_all(sets.take(i as int)),
            decreases self.fdns_a@.len() - i,
        {
            proof {
                lemma_union_all_take(sets, i as int);
            }
            let pieces = split_on(self.fdns_a[i].as_str(), ',');
            proof {
                lemma_names_of_views(pieces@);
            }
            let part = DomainSet::from_vec(&pieces);
            r.extend(&part);
            i = i + 1;
        }
        assert(sets.take(i as int) =~= sets);
        r
    }
}

/// Why an HTTP request to a source failed.
#[derive(PartialEq, Eq, Structural, Clone, Copy, Debug)]
pub enum RequestFailure {
    Timeout,
    Redirect,
    ClientError,
    ServerError,
    Other,
}

/// Why a source gave no result.
#[derive(PartialEq, Eq, Structural, Clone, Copy, Debug)]
pub enum FetchFailure {
    /// The request itself failed.
    Request(RequestFailure),
    /// The body did not have the source's documented shape.
    Json,
}

/// The kind of a failed request, by the first flag that is set in the order
/// timeout, redirect, client error, server error.
pub open spec fn request_failure_of(
    timeout: bool,
    redirect: bool,
    client_error: bool,
    server_error: bool,
) -> RequestFailure {
    if timeout {
        RequestFailure::Timeout
    } else if redirect {
        RequestFailure::Redirect
    } else if client_error {
        RequestFailure::ClientError
    } else if server_error {
        RequestFailure::ServerError
    } else {
        RequestFailure::Other
    }
}

/// Classifies a failed request from what the transport reports of it.
pub fn classify_request_failure(
    timeout: bool,
    redirect: bool,
    client_error: bool,
    server_error: bool,
) -> (r: RequestFailure)
    ensures
        r == request_failure_of(timeout, redirect, client_error, server_error),
{
    if timeout {
        RequestFailure::Timeout
    } else if redirect {
        RequestFailure::Redirect
    } else if client_error {
        RequestFailure::ClientError
    } else if server_error {
        RequestFailure::ServerError
    } else {
        RequestFailure::Other
    }
}

/// The result of one fetch: the names of a well-formed response, even when
/// there are none, and nothing at all when the fetch or the parse failed.
pub fn normalize_response<T: IntoSubdomains>(fetched: Result<T, FetchFailure>) -> (r: Option<
    DomainSet,
>)
    ensures
        fetched is Ok ==> (r is Some && r->0.wf() && r->0@ == fetched->Ok_0.subdomain_names()),
        fetched is Err ==> r is None,
{
    match fetched {
        Ok(response) => Some(response.into_subdomains()),
        Err(_) => None,
    }
}

pub open spec fn message_head(failure: FetchFailure) -> Seq<char> {
    match failure {
        FetchFailure::Request(RequestFailure::Timeout) =>
            "A timeout error has occurred while processing the request in the "@,
        FetchFailure::Request(RequestFailure::Redirect) =>
            "A redirect was found while processing the "@,
        FetchFailure::Request(RequestFailure::ClientError) =>
            "A client error has occurred sending the request to the "@,
        FetchFailure::Request(RequestFailure::ServerError) =>
            "A server error has occurred sending the request to the "@,
        FetchFailure::Request(RequestFailure::Other) =>
            "An error has occurred while processing the request in the "@,
        FetchFailure::Json => "An error occurred while parsing the JSON obtained from the "@,
    }
}

pub open spec fn message_tail(failure: FetchFailure) -> Seq<char> {
    match failure {
        FetchFailure::Json => "."@,
        _ => ""@,
    }
}

/// The diagnostic line for a failed fetch from the source named `api`.
pub open spec fn failure_text(api: Seq<char>, failure: FetchFailure, description: Seq<char>) -> Seq<
    char,
> {
    message_head(failure) + api + " API. Error description: "@ + description + message_tail(
        failure,
    )
}

/// Builds the diagnostic line for a failed fetch.
pub fn failure_message(api: &str, failure: FetchFailure, description: &str) -> (r: String)
    ensures
        r@ == failure_text(api@, failure, description@),
{
    let head = match failure {
        FetchFailure::Request(RequestFailure::Timeout) =>
            "A timeout error has occurred while processing the request in the ",
        FetchFailure::Request(RequestFailure::Redirect) =>
            "A redirect was found while processing the ",
        FetchFailure::Request(RequestFailure::ClientError) =>
            "A client error has occurred sending the request to the ",
        FetchFailure::Request(RequestFailure::ServerError) =>
            "A server error has occurred sending the request to the ",
        FetchFailure::Request(RequestFailure::Other) =>
            "An error has occurred while processing the request in the ",
        FetchFailure::Json => "An error occurred while parsing the JSON obtained from the ",
    };
    let tail = match failure {
        FetchFailure::Json => ".",
        _ => "",
    };
    let first = concat3(head, api, " API. Error description: ");
    let second = concat3(first.as_str(), description, tail);
    second
}

/// What to do after the database path of the crt.sh source.
pub enum CrtshStep {
    /// The database answered: these are the source's names.
    Found(DomainSet),
    /// Connecting or querying failed: ask the HTTP API instead.
    FallBackToApi,
}

/// Decides the crt.sh source from the database outcome: the rows' names when
/// the query succeeded, and the HTTP API otherwise.
pub fn crtsh_db_step(rows: Option<Vec<String>>) -> (r: CrtshStep)
    ensures
        rows is Some <==> r is Found,
        rows is Some ==> r->Found_0.wf() && r->Found_0@ == names_of(rows->0@),
{
    match rows {
        Some(names) => CrtshStep::Found(DomainSet::from_vec(&names)),
        None => CrtshStep::FallBackToApi,
    }
}

} // verus!
