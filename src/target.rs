//! The target domain and the query sent to each source for it.

use vstd::prelude::*;
use vstd::string::*;
use crate::text::{concat2, concat3, starts_with};
use rand::Rng;

verus! {

/// `s` with the leading `www.`, `https://` and `http://` removed, each at most
/// once, in whatever order they stand.
pub open spec fn strip_front(s: Seq<char>, www: bool, https: bool, http: bool) -> Seq<char>
    decreases s.len(),
{
    if !www && "www."@.is_prefix_of(s) && "www."@.len() > 0 {
        strip_front(s.skip("www."@.len() as int), true, https, http)
    } else if !https && "https://"@.is_prefix_of(s) && "https://"@.len() > 0 {
        strip_front(s.skip("https://"@.len() as int), www, true, http)
    } else if !http && "http://"@.is_prefix_of(s) && "http://"@.len() > 0 {
        strip_front(s.skip("http://"@.len() as int), www, https, true)
    } else {
        s
    }
}

/// `s` without one trailing `/`.
pub open spec fn strip_slash(s: Seq<char>) -> Seq<char> {
    if s.len() > 0 && s.last() == '/' {
        s.drop_last()
    } else {
        s
    }
}

/// The normalised target: leading `www.`, `https://`, `http://` and one
/// trailing `/` stripped, the rest kept as it is (case included).
pub open spec fn normalized(t: Seq<char>) -> Seq<char> {
    strip_slash(strip_front(t, false, false, false))
}

/// One of the leading prefixes that normalising strips.
pub open spec fn is_front_token(t: Seq<char>) -> bool {
    t == "www."@ || t == "https://"@ || t == "http://"@
}

/// A name that starts with none of the stripped prefixes.
pub open spec fn front_free(d: Seq<char>) -> bool {
    &&& !"www."@.is_prefix_of(d)
    &&& !"https://"@.is_prefix_of(d)
    &&& !"http://"@.is_prefix_of(d)
}

/// The pieces joined in order.
pub open spec fn joined(ps: Seq<Seq<char>>) -> Seq<char>
    decreases ps.len(),
{
    if ps.len() == 0 {
        Seq::empty()
    } else {
        ps[0] + joined(ps.drop_first())
    }
}

/// The prefix `t` has not been stripped yet.
pub open spec fn unused(t: Seq<char>, www: bool, https: bool, http: bool) -> bool {
    &&& t == "www."@ ==> !www
    &&& t == "https://"@ ==> !https
    &&& t == "http://"@ ==> !http
}

proof fn lemma_strip_joined(ps: Seq<Seq<char>>, d: Seq<char>, www: bool, https: bool, http: bool)
    requires
        ps.no_duplicates(),
        forall|i: int| 0 <= i < ps.len() ==> is_front_token(#[trigger] ps[i]),
        forall|i: int| 0 <= i < ps.len() ==> unused(#[trigger] ps[i], www, https, http),
        front_free(d),
    ensures
        strip_front(joined(ps) + d, www, https, http) == d,
    decreases ps.len(),
{
    reveal_strlit("www.");
    reveal_strlit("https://");
    reveal_strlit("http://");
    let w = "www."@;
    let hs = "https://"@;
    let h = "http://"@;
    if ps.len() == 0 {
        assert(joined(ps) + d =~= d);
    } else {
        let t = ps[0];
        let rest = ps.drop_first();
        let x = joined(rest) + d;
        let s = joined(ps) + d;
        assert(s =~= t + x);
        assert(s.subrange(0, t.len() as int) =~= t);
        assert(s.skip(t.len() as int) =~= x);
        assert forall|i: int| 0 <= i < rest.len() implies #[trigger] rest[i] != t by {
            assert(rest[i] == ps[i + 1]);
        }
        assert forall|i: int| 0 <= i < rest.len() implies is_front_token(#[trigger] rest[i]) by {
            assert(rest[i] == ps[i + 1]);
        }
        assert(is_front_token(ps[0]));
        assert(unused(ps[0], www, https, http));
        if t == w {
            assert(w.is_prefix_of(s));
            assert forall|i: int| 0 <= i < rest.len() implies unused(
                #[trigger] rest[i],
                true,
                https,
                http,
            ) by {
                assert(rest[i] == ps[i + 1]);
                assert(unused(ps[i + 1], www, https, http));
            }
            lemma_strip_joined(rest, d, true, https, http);
        } else {
            assert(s[0] == 'h');
            assert(!w.is_prefix_of(s)) by {
                if w.is_prefix_of(s) {
                    assert(s.subrange(0, 4)[0] == s[0]);
                }
            }
            if t == hs {
                assert(hs.is_prefix_of(s));
                assert forall|i: int| 0 <= i < rest.len() implies unused(
                    #[trigger] rest[i],
                    www,
                    true,
                    http,
                ) by {
                    assert(rest[i] == ps[i + 1]);
                    assert(unused(ps[i + 1], www, https, http));
                }
                lemma_strip_joined(rest, d, www, true, http);
            } else {
                assert(t == h);
                assert(s[4] == ':');
                assert(!hs.is_prefix_of(s)) by {
                    if hs.is_prefix_of(s) {
                        assert(s.subrange(0, 8)[4] == s[4]);
                    }
                }
                assert(h.is_prefix_of(s));
                assert forall|i: int| 0 <= i < rest.len() implies unused(
                    #[trigger] rest[i],
                    www,
                    https,
                    true,
                ) by {
                    assert(rest[i] == ps[i + 1]);
                    assert(unused(ps[i + 1], www, https, http));
                }
                lemma_strip_joined(rest, d, www, https, true);
            }
        }
    }
}

/// Normalising strips each leading `www.`, `https://` and `http://` exactly
/// once, whatever order they stand in, and one trailing `/`; the rest of the
/// name is kept as it is. (A name such as `http:/` is left out of the second
/// clause: with the slash it would itself start with a stripped prefix.)
pub proof fn lemma_normalize_strips_once(ps: Seq<Seq<char>>, d: Seq<char>)
    requires
        ps.no_duplicates(),
        forall|i: int| 0 <= i < ps.len() ==> is_front_token(#[trigger] ps[i]),
        front_free(d),
        !(d.len() > 0 && d.last() == '/'),
    ensures
        normalized(joined(ps) + d) == d,
        front_free(d + "/"@) ==> normalized(joined(ps) + (d + "/"@)) == d,
{
    reveal_strlit("/");
    lemma_strip_joined(ps, d, false, false, false);
    if front_free(d + "/"@) {
        lemma_strip_joined(ps, d + "/"@, false, false, false);
        assert((d + "/"@).drop_last() =~= d);
    }
}

/// Normalises a target as given by the user.
pub fn normalize_target(target: &str) -> (r: String)
    ensures
        r@ == normalized(target@),
{
    proof {
        reveal_strlit("www.");
        reveal_strlit("https://");
        reveal_strlit("http://");
    }
    let mut cur: &str = target;
    let mut www = false;
    let mut https = false;
    let mut http = false;
    loop
        invariant
            strip_front(cur@, www, https, http) == strip_front(target@, false, false, false),
            "www."@.len() == 4,
            "https://"@.len() == 8,
            "http://"@.len() == 7,
        ensures
            cur@ == strip_front(target@, false, false, false),
        decreases cur@.len(),
    {
        let n = cur.unicode_len();
        let ghost prev = cur@;
        if !www && starts_with(cur, "www.") {
            cur = cur.substring_char(4, n);
            assert(cur@ =~= prev.skip(4));
            www = true;
        } else if !https && starts_with(cur, "https://") {
            cur = cur.substring_char(8, n);
            assert(cur@ =~= prev.skip(8));
            https = true;
        } else if !http && starts_with(cur, "http://") {
            cur = cur.substring_char(7, n);
            assert(cur@ =~= prev.skip(7));
            http = true;
        } else {
            assert(strip_front(cur@, www, https, http) == cur@);
            break;
        }
    }
    let n = cur.unicode_len();
    if n > 0 && cur.get_char(n - 1) == '/' {
        let head = cur.substring_char(0, n - 1);
        assert(head@ =~= cur@.drop_last());
        String::from_str(head)
    } else {
        String::from_str(cur)
    }
}

pub open spec fn certspotter_query(t: Seq<char>) -> Seq<char> {
    "https://api.certspotter.com/v1/issuances?domain="@ + t
        + "&include_subdomains=true&expand=dns_names"@
}

pub open spec fn virustotal_query(t: Seq<char>) -> Seq<char> {
    "https://www.virustotal.com/ui/domains/"@ + t + "/subdomains?limit=40"@
}

pub open spec fn crtsh_query(t: Seq<char>) -> Seq<char> {
    "https://crt.sh/?q=%."@ + t + "&output=json"@
}

pub open spec fn crtsh_db_query(t: Seq<char>) -> Seq<char> {
    "SELECT ci.NAME_VALUE NAME_VALUE FROM certificate_identity ci WHERE ci.NAME_TYPE = 'dNSName' AND reverse(lower(ci.NAME_VALUE)) LIKE reverse(lower('%."@
        + t + "'))"@
}

pub open spec fn sublist3r_query(t: Seq<char>) -> Seq<char> {
    "https://api.sublist3r.com/search.php?domain="@ + t
}

pub open spec fn spyse_query(t: Seq<char>, token: Seq<char>) -> Seq<char> {
    "https://api.spyse.com/v1/subdomains?domain="@ + t + "&api_token="@ + token
}

pub open spec fn bufferover_query(t: Seq<char>) -> Seq<char> {
    "http://dns.bufferover.run/dns?q="@ + t
}

pub open spec fn threatcrowd_query(t: Seq<char>) -> Seq<char> {
    "https://threatcrowd.org/searchApi/v2/domain/report/?domain="@ + t
}

pub open spec fn facebook_query(t: Seq<char>, token: Seq<char>) -> Seq<char> {
    "https://graph.facebook.com/certificates?query="@ + t
        + "&fields=domains&limit=10000&access_token="@ + token
}

pub open spec fn virustotal_apikey_query(t: Seq<char>, key: Seq<char>) -> Seq<char> {
    "https://www.virustotal.com/vtapi/v2/domain/report?apikey="@ + key + "&domain="@ + t
}

/// The query of each source for one target.
pub struct SourceQueries {
    pub certspotter: String,
    pub virustotal: String,
    pub crtsh: String,
    pub crtsh_db: String,
    pub sublist3r: String,
    pub spyse: String,
    pub bufferover: String,
    pub threatcrowd: String,
    pub facebook: String,
    /// Absent when no key for the keyed VirusTotal API is configured.
    pub virustotal_apikey: Option<String>,
}

/// Builds every source's query for `target` with the given credentials.
pub fn build_queries(
    target: &str,
    spyse_token: &str,
    facebook_token: &str,
    virustotal_key: &str,
) -> (r: SourceQueries)
    ensures
        r.certspotter@ == certspotter_query(target@),
        r.virustotal@ == virustotal_query(target@),
        r.crtsh@ == crtsh_query(target@),
        r.crtsh_db@ == crtsh_db_query(target@),
        r.sublist3r@ == sublist3r_query(target@),
        r.spyse@ == spyse_query(target@, spyse_token@),
        r.bufferover@ == bufferover_query(target@),
        r.threatcrowd@ == threatcrowd_query(target@),
        r.facebook@ == facebook_query(target@, facebook_token@),
        virustotal_key@.len() == 0 ==> r.virustotal_apikey is None,
        virustotal_key@.len() > 0 ==> (r.virustotal_apikey is Some
            && r.virustotal_apikey->0@ == virustotal_apikey_query(target@, virustotal_key@)),
{
    let certspotter = concat3(
        "https://api.certspotter.com/v1/issuances?domain=",
        target,
        "&include_subdomains=true&expand=dns_names",
    );
    let virustotal = concat3(
        "https://www.virustotal.com/ui/domains/",
        target,
        "/subdomains?limit=40",
    );
    let crtsh = concat3("https://crt.sh/?q=%.", target, "&output=json");
    let crtsh_db = concat3(
        "SELECT ci.NAME_VALUE NAME_VALUE FROM certificate_identity ci WHERE ci.NAME_TYPE = 'dNSName' AND reverse(lower(ci.NAME_VALUE)) LIKE reverse(lower('%.",
        target,
        "'))",
    );
    let sublist3r = concat2("https://api.sublist3r.com/search.php?domain=", target);
    let spyse_head = concat3("https://api.spyse.com/v1/subdomains?domain=", target, "&api_token=");
    let spyse = concat2(spyse_head.as_str(), spyse_token);
    let bufferover = concat2("http://dns.bufferover.run/dns?q=", target);
    let threatcrowd = concat2(
        "https://threatcrowd.org/searchApi/v2/domain/report/?domain=",
        target,
    );
    let facebook_head = concat3(
        "https://graph.facebook.com/certificates?query=",
        target,
        "&fields=domains&limit=10000&access_token=",
    );
    let facebook = concat2(facebook_head.as_str(), facebook_token);
    let virustotal_apikey = if virustotal_key.unicode_len() == 0 {
        None
    } else {
        let head = concat3(
            "https://www.virustotal.com/vtapi/v2/domain/report?apikey=",
            virustotal_key,
            "&domain=",
        );
        Some(concat2(head.as_str(), target))
    };
    SourceQueries {
        certspotter,
        virustotal,
        crtsh,
        crtsh_db,
        sublist3r,
        spyse,
        bufferover,
        threatcrowd,
        facebook,
        virustotal_apikey,
    }
}

/// Relies on rand's `thread_rng().gen_range(0, n)`: a uniformly drawn value in
/// `[0, n)`; `gen_range` panics when `n` is zero.
#[verifier::external_body]
fn random_index(n: usize) -> (r: usize)
    requires
        n > 0,
    ensures
        r < n,
{
    rand::thread_rng().gen_range(0, n)
}

/// The credential for the certificate API: the configured one, or else one
/// drawn at random from `pool`; empty when both are empty.
pub fn choose_facebook_token(configured: &str, pool: &Vec<String>) -> (r: String)
    ensures
        configured@.len() > 0 ==> r@ == configured@,
        configured@.len() == 0 && pool@.len() > 0 ==> exists|i: int|
            0 <= i < pool@.len() && r@ == #[trigger] pool@[i]@,
        configured@.len() == 0 && pool@.len() == 0 ==> r@.len() == 0,
{
    if configured.unicode_len() > 0 {
        String::from_str(configured)
    } else if pool.len() > 0 {
        let i = random_index(pool.len());
        let r = pool[i].clone();
        assert(r@ == pool@[i as int]@);
        r
    } else {
        String::new()
    }
}

} // verus!
