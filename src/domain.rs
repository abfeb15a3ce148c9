//! Domain classification: a hit is scrapable when the registrable domain of its
//! URL is on the allow-list.

use vstd::prelude::*;
use crate::chars::{char_vec, string_from_chars};

verus! {

#[verifier::external_type_specification]
#[verifier::external_body]
pub struct ExUrlParseError(url::ParseError);

/// The outcome of parsing `s` as an absolute URL with `url::Url::parse`:
/// `None` when parsing fails; otherwise the URL's host, absent for hostless
/// URLs, as its text and whether it is a domain name (not an IP address).
pub uninterp spec fn parsed_host(s: Seq<char>) -> Option<Option<(Seq<char>, bool)>>;

/// The registrable domain that `psl::domain_str` gives for `host`, if any.
pub uninterp spec fn registrable_domain(host: Seq<char>) -> Option<Seq<char>>;

/// Whether the public suffix that `psl::suffix` finds in `host` is on the
/// list (`Some(false)` when only the catch-all rule matched), if it finds one.
pub uninterp spec fn suffix_known(host: Seq<char>) -> Option<bool>;

/// Relies on `url::Url::parse` to parse an absolute URL, on
/// `url::Url::host_str` to read the host of the parsed value, and on
/// `url::Url::host` to tell a domain name from an IP address.
#[verifier::external_body]
fn url_host(s: &str) -> (r: Result<Option<(String, bool)>, url::ParseError>)
    ensures
        match r {
            Ok(Some((h, is_name))) => parsed_host(s@) == Some(Some((h@, is_name))),
            Ok(None) => parsed_host(s@) == Some(None::<(Seq<char>, bool)>),
            Err(_) => parsed_host(s@) is None,
        },
{
    url::Url::parse(s).map(|u| {
        let is_name = matches!(u.host(), Some(url::Host::Domain(_)));
        u.host_str().map(|h| (String::from(h), is_name))
    })
}

/// Relies on `psl::domain_str`: the registrable domain (public suffix plus one
/// label) of a host name, or `None` when the list yields none.
#[verifier::external_body]
fn domain_of(host: &str) -> (r: Option<String>)
    ensures
        match r {
            Some(d) => registrable_domain(host@) == Some(d@),
            None => registrable_domain(host@) is None,
        },
{
    psl::domain_str(host).map(String::from)
}

/// Relies on `psl::suffix` and `Suffix::is_known`: whether the public suffix
/// of a host name comes from a rule of the list rather than the catch-all.
#[verifier::external_body]
fn known_suffix(host: &str) -> (r: Option<bool>)
    ensures
        r == suffix_known(host@),
{
    psl::suffix(host.as_bytes()).map(|s| s.is_known())
}

/// `line` without the carriage return that ends it, if any.
pub open spec fn drop_cr(line: Seq<char>) -> Seq<char> {
    if line.len() > 0 && line.last() == '\r' {
        line.drop_last()
    } else {
        line
    }
}

/// The lines of `text`: split at each `\n`, the `\r` of a `\r\n` ending
/// dropped, the ending of the last line optional.
pub open spec fn lines_of(text: Seq<char>) -> Seq<Seq<char>>
    decreases text.len(),
{
    if text.len() == 0 {
        Seq::empty()
    } else {
        match text.index_of_first('\n') {
            Some(k) => if 0 <= k < text.len() {
                seq![drop_cr(text.take(k))] + lines_of(text.skip(k + 1))
            } else {
                Seq::empty()
            },
            None => seq![text],
        }
    }
}

/// The allow-list written one registrable domain per line.
pub fn parse_allow_list(text: &str) -> (r: Vec<String>)
    ensures
        r@.map_values(|l: String| l@) == lines_of(text@),
{
    let cs = char_vec(text);
    let ghost all = cs@;
    let mut out: Vec<String> = Vec::new();
    let mut cur: Vec<char> = Vec::new();
    let mut start: usize = 0;
    let mut i: usize = 0;
    assert(all.skip(0) == all);
    while i < cs.len()
        invariant
            all == cs@,
            all == text@,
            0 <= start <= i <= all.len(),
            cur@ == all.subrange(start as int, i as int),
            forall|j: int| start <= j < i ==> all[j] != '\n',
            lines_of(all) == out@.map_values(|l: String| l@) + lines_of(all.skip(start as int)),
        decreases all.len() - i,
    {
        let c = cs[i];
        if c == '\n' {
            proof {
                let rest = all.skip(start as int);
                let k = (i - start) as int;
                assert(rest[k] == '\n');
                assert(rest.contains('\n'));
                rest.index_of_first_ensures('\n');
                let f = rest.index_of_first('\n')->Some_0;
                if f < k {
                    assert(rest[f] == all[start + f]);
                }
                assert(f == k);
                assert(rest.take(k) == cur@);
                assert(rest.skip(k + 1) == all.skip(i + 1));
            }
            if cur.len() > 0 && cur[cur.len() - 1] == '\r' {
                cur.pop();
            }
            let line = string_from_chars(&cur);
            let ghost before = out@;
            out.push(line);
            proof {
                assert(out@.map_values(|l: String| l@) == before.map_values(|l: String| l@).push(
                    line@,
                ));
            }
            cur = Vec::new();
            start = i + 1;
            proof {
                assert(all.subrange(start as int, start as int).len() == 0);
                assert(cur@ =~= all.subrange(start as int, (i + 1) as int));
            }
        } else {
            cur.push(c);
            proof {
                assert(cur@ =~= all.subrange(start as int, (i + 1) as int));
            }
        }
        i = i + 1;
    }
    if start < cs.len() {
        let ghost before = out@;
        proof {
            let rest = all.skip(start as int);
            if rest.contains('\n') {
                let j = choose|j: int| 0 <= j < rest.len() && rest[j] == '\n';
                assert(all[start + j] == '\n');
            }
            rest.index_of_first_ensures('\n');
            assert(rest == cur@);
            assert(lines_of(rest) == seq![rest]);
        }
        let line = string_from_chars(&cur);
        out.push(line);
        proof {
            assert(out@.map_values(|l: String| l@) == before.map_values(|l: String| l@).push(
                line@,
            ));
        }
    }
    proof {
        assert(all.skip(all.len() as int).len() == 0);
    }
    out
}

/// Why a URL could not be classified.
#[derive(Debug)]
pub enum CheckScrapableError {
    /// The text is not a well-formed absolute URL.
    UrlParseError(url::ParseError),
    /// The URL has no host component.
    NoHost,
    /// No registrable domain can be derived from the host.
    NoDomain,
}

/// `d` occurs verbatim in `list`.
pub open spec fn listed(list: Seq<String>, d: Seq<char>) -> bool {
    exists|i: int| 0 <= i < list.len() && #[trigger] list[i]@ == d
}

/// The classification of `url` against `list`: `Ok(b)` with `b` telling
/// membership of the registrable domain, or the kind of failure.
pub enum Classification {
    Listed(bool),
    InvalidUrl,
    NoHost,
    NoDomain,
}

/// The registrable domain of a host: only a domain name whose public suffix
/// is on the list has one.
pub open spec fn host_domain(host: Seq<char>, is_name: bool) -> Option<Seq<char>> {
    if is_name && suffix_known(host) == Some(true) {
        registrable_domain(host)
    } else {
        None
    }
}

pub open spec fn classify(url: Seq<char>, list: Seq<String>) -> Classification {
    match parsed_host(url) {
        None => Classification::InvalidUrl,
        Some(None) => Classification::NoHost,
        Some(Some((h, is_name))) => match host_domain(h, is_name) {
            None => Classification::NoDomain,
            Some(d) => Classification::Listed(listed(list, d)),
        },
    }
}

/// Whether `url` is scrapable: its domain is listed, with every failure
/// to classify counting as not scrapable.
pub open spec fn scrapable(url: Seq<char>, list: Seq<String>) -> bool {
    match classify(url, list) {
        Classification::Listed(b) => b,
        _ => false,
    }
}

/// Exact string membership of `domain` in `allow_list`.
pub fn is_listed(domain: &str, allow_list: &[String]) -> (r: bool)
    ensures
        r == listed(allow_list@, domain@),
{
    let wanted = String::from_str(domain);
    let mut i: usize = 0;
    while i < allow_list.len()
        invariant
            0 <= i <= allow_list@.len(),
            wanted@ == domain@,
            forall|j: int| 0 <= j < i ==> #[trigger] allow_list@[j]@ != domain@,
        decreases allow_list@.len() - i,
    {
        if allow_list[i] == wanted {
            return true;
        }
        i = i + 1;
    }
    false
}

/// Classifies `url` against the allow-list of registrable domains.
pub fn check_if_scrapable(url: &str, scrapable_domains: &[String]) -> (r: Result<
    bool,
    CheckScrapableError,
>)
    ensures
        match classify(url@, scrapable_domains@) {
            Classification::Listed(b) => r == Ok::<bool, CheckScrapableError>(b),
            Classification::InvalidUrl => r matches Err(CheckScrapableError::UrlParseError(_)),
            Classification::NoHost => r matches Err(CheckScrapableError::NoHost),
            Classification::NoDomain => r matches Err(CheckScrapableError::NoDomain),
        },
{
    let host = match url_host(url) {
        Err(e) => {
            return Err(CheckScrapableError::UrlParseError(e));
        },
        Ok(None) => {
            return Err(CheckScrapableError::NoHost);
        },
        Ok(Some(h)) => h,
    };
    let (name, is_name) = host;
    if !is_name {
        return Err(CheckScrapableError::NoDomain);
    }
    match known_suffix(name.as_str()) {
        Some(true) => {},
        _ => {
            return Err(CheckScrapableError::NoDomain);
        },
    }
    match domain_of(name.as_str()) {
        None => Err(CheckScrapableError::NoDomain),
        Some(d) => Ok(is_listed(d.as_str(), scrapable_domains)),
    }
}

/// A well-formed absolute URL whose host is a domain name with a registrable
/// domain under a listed public suffix is classified without error, and it is
/// scrapable exactly when that domain stands verbatim in the allow-list.
pub proof fn lemma_classified_by_domain(
    url: Seq<char>,
    list: Seq<String>,
    host: Seq<char>,
    domain: Seq<char>,
)
    requires
        parsed_host(url) == Some(Some((host, true))),
        suffix_known(host) == Some(true),
        registrable_domain(host) == Some(domain),
    ensures
        classify(url, list) == Classification::Listed(listed(list, domain)),
        scrapable(url, list) == listed(list, domain),
{
}

/// A malformed or hostless URL is not scrapable.
pub proof fn lemma_unparsable_not_scrapable(url: Seq<char>, list: Seq<String>)
    requires
        parsed_host(url) is None || parsed_host(url) == Some(None::<(Seq<char>, bool)>),
    ensures
        !scrapable(url, list),
{
}

/// A URL whose host is an IP address, or a name under a public suffix that
/// is not on the list, has no registrable domain, whatever the allow-list holds.
pub proof fn lemma_no_domain_without_listed_suffix(
    url: Seq<char>,
    list: Seq<String>,
    host: Seq<char>,
    is_name: bool,
)
    requires
        parsed_host(url) == Some(Some((host, is_name))),
        !is_name || suffix_known(host) != Some(true),
    ensures
        classify(url, list) == Classification::NoDomain,
        !scrapable(url, list),
{
}

} // verus!
