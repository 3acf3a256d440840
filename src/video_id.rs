//! The identifier extractor: from an item URL to the short token that
//! names the item, used for ledger lookups.

use vstd::prelude::*;
use crate::text::{blank, chars_of, contains_chars, is_blank, occurs_at, occurs_in, opt_chars};

verus! {

#[verifier::external_type_specification]
#[verifier::external_body]
pub struct ExUrlParseError(url::ParseError);

/// Whether `url::Url::parse` accepts the text.
pub uninterp spec fn url_accepts(s: Seq<char>) -> bool;

/// What `url::Url::domain` gives for the URL parsed from the text.
pub uninterp spec fn url_domain(s: Seq<char>) -> Option<Seq<char>>;

/// The first item of `url::Url::path_segments` for the URL parsed from the text.
pub uninterp spec fn url_first_segment(s: Seq<char>) -> Option<Seq<char>>;

/// The decoded pairs of `url::Url::query_pairs` for the URL parsed from the text.
pub uninterp spec fn url_query_pairs(s: Seq<char>) -> Seq<(Seq<char>, Seq<char>)>;

/// The parts of a parsed URL that identifier extraction reads.
pub struct UrlParts {
    /// The host, when it is a domain name.
    pub domain: Option<String>,
    /// The first path segment, when the URL has a hierarchical path.
    pub first_segment: Option<String>,
    /// The query's key/value pairs, decoded, in order.
    pub query: Vec<(String, String)>,
}

pub open spec fn pairs_view(q: Seq<(String, String)>) -> Seq<(Seq<char>, Seq<char>)> {
    q.map_values(|p: (String, String)| (p.0@, p.1@))
}

/// Relies on `url::Url::parse`, and on `domain`, `path_segments` and
/// `query_pairs` of the parsed URL, each copied out as owned strings.
#[verifier::external_body]
fn parse_url(s: &str) -> (r: Result<UrlParts, url::ParseError>)
    ensures
        r is Ok <==> url_accepts(s@),
        r matches Ok(p) ==> {
            &&& opt_chars(p.domain) == url_domain(s@)
            &&& opt_chars(p.first_segment) == url_first_segment(s@)
            &&& pairs_view(p.query@) == url_query_pairs(s@)
        },
{
    match url::Url::parse(s) {
        Ok(u) => Ok(UrlParts {
            domain: u.domain().map(String::from),
            first_segment: u.path_segments().and_then(|mut p| p.next()).map(String::from),
            query: u.query_pairs().into_owned().collect(),
        }),
        Err(e) => Err(e),
    }
}

/// The host marker of short links, whose path holds the identifier.
pub open spec fn short_link_marker() -> Seq<char> {
    seq!['y', 'o', 'u', 't', 'u', '.', 'b', 'e']
}

/// The query key that holds the identifier of a watch URL.
pub open spec fn reference_key() -> Seq<char> {
    seq!['v']
}

/// The value of the first pair whose key is `key`.
pub open spec fn first_value(pairs: Seq<(Seq<char>, Seq<char>)>, key: Seq<char>) -> Option<
    Seq<char>,
>
    decreases pairs.len(),
{
    if pairs.len() == 0 {
        None
    } else if pairs[0].0 == key {
        Some(pairs[0].1)
    } else {
        first_value(pairs.drop_first(), key)
    }
}

/// The identifier named by a URL with these parts: the first path segment
/// of a short link, else the value of the first reference key of the query.
/// A URL whose host is not a domain name, or that has no host, is not a
/// short link and takes the reference key's value too.
pub open spec fn id_from_parts(
    domain: Option<Seq<char>>,
    first_segment: Option<Seq<char>>,
    query: Seq<(Seq<char>, Seq<char>)>,
) -> Option<Seq<char>> {
    match domain {
        Some(d) if occurs_in(d, short_link_marker()) => first_segment,
        _ => first_value(query, reference_key()),
    }
}

/// The identifier of the item at `url`, if it has one.
pub open spec fn video_id_of(url: Seq<char>) -> Option<Seq<char>> {
    if blank(url) || !url_accepts(url) {
        None
    } else {
        id_from_parts(url_domain(url), url_first_segment(url), url_query_pairs(url))
    }
}

/// The identifier named by the parts of a parsed URL.
pub fn video_id_from_parts(parts: &UrlParts) -> (r: Option<String>)
    ensures
        opt_chars(r) == id_from_parts(
            opt_chars(parts.domain),
            opt_chars(parts.first_segment),
            pairs_view(parts.query@),
        ),
{
    match &parts.domain {
        None => query_value(&parts.query, 'v'),
        Some(d) => {
            let marker: Vec<char> = vec!['y', 'o', 'u', 't', 'u', '.', 'b', 'e'];
            proof {
                assert(marker@ =~= short_link_marker());
            }
            if contains_chars(&chars_of(d.as_str()), &marker) {
                match &parts.first_segment {
                    Some(s) => Some(s.clone()),
                    None => None,
                }
            } else {
                query_value(&parts.query, 'v')
            }
        },
    }
}

/// The value of the first query pair whose key is the one-character `key`.
fn query_value(query: &Vec<(String, String)>, key: char) -> (r: Option<String>)
    ensures
        opt_chars(r) == first_value(pairs_view(query@), seq![key]),
{
    let ghost all = pairs_view(query@);
    proof {
        assert(all.subrange(0, all.len() as int) =~= all);
    }
    let mut i: usize = 0;
    while i < query.len()
        invariant
            i <= query@.len(),
            all == pairs_view(query@),
            first_value(all, seq![key]) == first_value(all.subrange(i as int, all.len() as int), seq![key]),
        decreases query@.len() - i,
    {
        let k = chars_of(query[i].0.as_str());
        proof {
            let rest = all.subrange(i as int, all.len() as int);
            assert(rest[0] == all[i as int]);
            assert(rest.drop_first() =~= all.subrange(i + 1, all.len() as int));
        }
        if k.len() == 1 && k[0] == key {
            proof {
                assert(k@ =~= seq![key]);
            }
            return Some(query[i].1.clone());
        }
        proof {
            if k@ == seq![key] {
                assert(k@[0] == key);
            }
        }
        i = i + 1;
    }
    proof {
        assert(all.subrange(i as int, all.len() as int).len() == 0);
    }
    None
}

/// The identifier of the item at `url`, or the URL parser's error when the
/// text is not blank and does not parse as a URL.
pub fn lookup_video_id(url: &str) -> (r: Result<Option<String>, url::ParseError>)
    ensures
        r is Err <==> (!blank(url@) && !url_accepts(url@)),
        r matches Ok(o) ==> opt_chars(o) == video_id_of(url@),
{
    if is_blank(&chars_of(url)) {
        return Ok(None);
    }
    match parse_url(url) {
        Ok(parts) => Ok(video_id_from_parts(&parts)),
        Err(e) => Err(e),
    }
}

/// The identifier of the item at `url`, if it has one. Blank text and
/// text that does not parse as a URL have none.
pub fn get_video_id(url: &str) -> (r: Option<String>)
    ensures
        opt_chars(r) == video_id_of(url@),
{
    match lookup_video_id(url) {
        Ok(o) => o,
        Err(_) => None,
    }
}


proof fn lemma_first_value_skips(
    before: Seq<(Seq<char>, Seq<char>)>,
    rest: Seq<(Seq<char>, Seq<char>)>,
    key: Seq<char>,
)
    requires
        forall|i: int| 0 <= i < before.len() ==> (#[trigger] before[i]).0 != key,
    ensures
        first_value(before + rest, key) == first_value(rest, key),
    decreases before.len(),
{
    if before.len() > 0 {
        assert((before + rest).drop_first() =~= before.drop_first() + rest);
        assert forall|i: int| 0 <= i < before.drop_first().len() implies (
        #[trigger] before.drop_first()[i]).0 != key by {
            assert(before.drop_first()[i] == before[i + 1]);
        }
        lemma_first_value_skips(before.drop_first(), rest, key);
    } else {
        assert(before + rest =~= rest);
    }
}

/// A URL whose domain contains the short-link marker is identified by its
/// first path segment, whatever its query holds.
pub proof fn short_link_identified_by_path(
    domain: Seq<char>,
    segment: Seq<char>,
    query: Seq<(Seq<char>, Seq<char>)>,
)
    requires
        occurs_in(domain, short_link_marker()),
    ensures
        id_from_parts(Some(domain), Some(segment), query) == Some(segment),
{
}

/// The short-link host itself contains the short-link marker, so a short
/// link is identified by its first path segment.
pub proof fn short_link_host_identified_by_path(
    segment: Seq<char>,
    query: Seq<(Seq<char>, Seq<char>)>,
)
    ensures
        id_from_parts(Some(short_link_marker()), Some(segment), query) == Some(segment),
{
    let d = short_link_marker();
    assert(d.subrange(0, d.len() as int) =~= d);
    assert(occurs_at(d, d, 0));
}

/// On any other host, a domain name or not, and on a URL without host,
/// the identifier is the value of the first reference-key pair of the
/// query: pairs with other keys before it, and any pairs after it, do not
/// change it.
pub proof fn watch_url_identified_by_reference_key(
    domain: Option<Seq<char>>,
    segment: Option<Seq<char>>,
    before: Seq<(Seq<char>, Seq<char>)>,
    id: Seq<char>,
    after: Seq<(Seq<char>, Seq<char>)>,
)
    requires
        !(domain matches Some(d) && occurs_in(d, short_link_marker())),
        forall|i: int| 0 <= i < before.len() ==> (#[trigger] before[i]).0 != reference_key(),
    ensures
        id_from_parts(domain, segment, before + seq![(reference_key(), id)] + after)
            == Some(id),
{
    let rest = seq![(reference_key(), id)] + after;
    assert(before + seq![(reference_key(), id)] + after =~= before + rest);
    lemma_first_value_skips(before, rest, reference_key());
    assert(rest[0] == (reference_key(), id));
}

/// On any host without the short-link marker, and on a URL without host,
/// a query without the reference key gives no identifier.
pub proof fn watch_url_without_reference_key_has_no_id(
    domain: Option<Seq<char>>,
    segment: Option<Seq<char>>,
    query: Seq<(Seq<char>, Seq<char>)>,
)
    requires
        !(domain matches Some(d) && occurs_in(d, short_link_marker())),
        forall|i: int| 0 <= i < query.len() ==> (#[trigger] query[i]).0 != reference_key(),
    ensures
        id_from_parts(domain, segment, query) is None,
{
    lemma_first_value_skips(query, Seq::empty(), reference_key());
    assert(query + Seq::empty() =~= query);
}

/// Empty or blank text, and text the URL parser refuses, have no identifier.
pub proof fn blank_or_unparsable_has_no_id(url: Seq<char>)
    requires
        url.len() == 0 || blank(url) || !url_accepts(url),
    ensures
        video_id_of(url) is None,
{
}

} // verus!
