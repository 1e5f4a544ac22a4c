//! Image addresses: parsing, the trust policy that gates server-side fetches,
//! and resolution of redirect-wrapped addresses.

use vstd::prelude::*;
use crate::text::{occurs_in, str_ends_with, str_eq, trim_leading, trim_start_char};

verus! {

/// Host of the controlled asset store.
pub const ASSET_HOST: &'static str = "pp-facebook-ads.s3.amazonaws.com";

/// Base address under which the asset store serves stored objects.
pub const ASSET_ENDPOINT: &'static str = "https://pp-facebook-ads.s3.amazonaws.com/";

/// Domain suffix of the upstream image CDN.
pub const CDN_SUFFIX: &'static str = "fbcdn.net";

/// Query parameter under which a redirect wrapper carries its real target.
pub const REDIRECT_PARAM: &'static str = "url";

/// A parsed absolute address, held as the plain values the pipeline reads.
#[derive(Debug)]
pub struct UrlParts {
    /// The address as the parser serialises it.
    pub text: String,
    pub host: Option<String>,
    pub path: String,
    /// Decoded query pairs, in order.
    pub query: Vec<(String, String)>,
}

/// Serialisation, host, path and query pairs of an address.
pub type UrlModel = (Seq<char>, Option<Seq<char>>, Seq<char>, Seq<(Seq<char>, Seq<char>)>);

pub open spec fn opt_str_view(o: Option<String>) -> Option<Seq<char>> {
    match o {
        Some(s) => Some(s@),
        None => None,
    }
}

pub open spec fn pairs_view(q: Seq<(String, String)>) -> Seq<(Seq<char>, Seq<char>)> {
    q.map_values(|p: (String, String)| (p.0@, p.1@))
}

impl View for UrlParts {
    type V = UrlModel;

    open spec fn view(&self) -> UrlModel {
        (self.text@, opt_str_view(self.host), self.path@, pairs_view(self.query@))
    }
}

pub open spec fn opt_url_view(o: Option<UrlParts>) -> Option<UrlModel> {
    match o {
        Some(u) => Some(u@),
        None => None,
    }
}

/// What the URL parser makes of a string: `None` where it rejects it.
pub uninterp spec fn parsed_url(s: Seq<char>) -> Option<UrlModel>;

/// Relies on url::Url::parse (with `as_str`, `host_str`, `path` and
/// `query_pairs` to read the parsed value): the outcome depends on the text alone.
#[verifier::external_body]
pub(crate) fn parse_url(s: &str) -> (r: Option<UrlParts>)
    ensures
        opt_url_view(r) == parsed_url(s@),
{
    match url::Url::parse(s) {
        Ok(u) => Some(UrlParts {
            text: u.as_str().to_string(),
            host: u.host_str().map(|h| h.to_string()),
            path: u.path().to_string(),
            query: u.query_pairs().into_owned().collect(),
        }),
        Err(_) => None,
    }
}

/// The host is the asset store's, or lies under the CDN's domain suffix.
pub open spec fn trusted_host(host: Option<Seq<char>>) -> bool {
    match host {
        Some(h) => h == ASSET_HOST@ || (CDN_SUFFIX@.len() <= h.len() && h.subrange(
            h.len() - CDN_SUFFIX@.len(),
            h.len() as int,
        ) == CDN_SUFFIX@),
        None => false,
    }
}

/// The value of the last query pair named `key`.
pub open spec fn last_param(q: Seq<(Seq<char>, Seq<char>)>, key: Seq<char>) -> Option<Seq<char>>
    decreases q.len(),
{
    if q.len() == 0 {
        None
    } else if q.last().0 == key {
        Some(q.last().1)
    } else {
        last_param(q.drop_last(), key)
    }
}

/// The address actually fetched for `u`: the redirect target where `u` carries
/// one that parses, else `u` itself.
pub open spec fn resolved(u: UrlModel) -> UrlModel {
    match last_param(u.3, REDIRECT_PARAM@) {
        Some(t) => match parsed_url(t) {
            Some(v) => v,
            None => u,
        },
        None => u,
    }
}

/// Key under which the asset store keeps the object for `path`.
pub open spec fn key_of(path: Seq<char>) -> Seq<char> {
    trim_leading(path, '/')
}

/// Canonical asset-store address for `path`.
pub open spec fn canonical_of(path: Seq<char>) -> Seq<char> {
    ASSET_ENDPOINT@ + key_of(path)
}

impl UrlParts {
    /// Parses `s`; `None` where the parser rejects it.
    pub fn parse(s: &str) -> (r: Option<UrlParts>)
        ensures
            opt_url_view(r) == parsed_url(s@),
    {
        parse_url(s)
    }

    /// Whether the address may be fetched server-side: its host is the asset
    /// store's or ends with the CDN suffix. Everything else is dropped.
    pub fn is_trusted_source(&self) -> (r: bool)
        ensures
            r == trusted_host(self@.1),
    {
        match &self.host {
            Some(h) => str_eq(h.as_str(), ASSET_HOST) || str_ends_with(h.as_str(), CDN_SUFFIX),
            None => false,
        }
    }

    /// Whether the address already lies on the asset store, so that its bytes
    /// need no upload.
    pub fn is_stored(&self) -> (r: bool)
        ensures
            r == (self@.1 == Some(ASSET_HOST@)),
    {
        match &self.host {
            Some(h) => str_eq(h.as_str(), ASSET_HOST),
            None => false,
        }
    }

    /// The real target of a redirect-wrapped address, or the address itself.
    pub fn real_target(&self) -> (r: UrlParts)
        ensures
            r@ == resolved(self@),
    {
        let n = self.query.len();
        let mut i: usize = n;
        assert(pairs_view(self.query@).subrange(0, n as int) =~= pairs_view(self.query@));
        while i > 0
            invariant
                i <= n == self.query@.len(),
                last_param(pairs_view(self.query@), REDIRECT_PARAM@) == last_param(
                    pairs_view(self.query@).subrange(0, i as int),
                    REDIRECT_PARAM@,
                ),
            decreases i,
        {
            let ghost q = pairs_view(self.query@).subrange(0, i as int);
            assert(q.drop_last() =~= pairs_view(self.query@).subrange(0, i - 1));
            if str_eq(self.query[i - 1].0.as_str(), REDIRECT_PARAM) {
                return match parse_url(self.query[i - 1].1.as_str()) {
                    Some(v) => v,
                    None => self.clone_parts(),
                };
            }
            i = i - 1;
        }
        assert(pairs_view(self.query@).subrange(0, 0) =~= Seq::empty());
        self.clone_parts()
    }

    /// A copy with the same view.
    pub fn clone_parts(&self) -> (r: UrlParts)
        ensures
            r@ == self@,
    {
        let mut query: Vec<(String, String)> = Vec::new();
        let mut i: usize = 0;
        while i < self.query.len()
            invariant
                i <= self.query@.len(),
                query@.len() == i,
                forall|j: int|
                    0 <= j < i ==> #[trigger] query@[j].0@ == self.query@[j].0@ && query@[j].1@
                        == self.query@[j].1@,
            decreases self.query@.len() - i,
        {
            let a = self.query[i].0.clone();
            let b = self.query[i].1.clone();
            query.push((a, b));
            i = i + 1;
        }
        assert(pairs_view(query@) =~= pairs_view(self.query@));
        UrlParts {
            text: self.text.clone(),
            host: match &self.host {
                Some(h) => Some(h.clone()),
                None => None,
            },
            path: self.path.clone(),
            query,
        }
    }

    /// Object key for the address's path: the path without its leading slashes.
    pub fn upload_key(&self) -> (r: String)
        ensures
            r@ == key_of(self@.2),
    {
        trim_start_char(self.path.as_str(), '/').to_string()
    }

    /// The canonical asset-store address for this address's path.
    pub fn canonical_url(&self) -> (r: String)
        ensures
            r@ == canonical_of(self@.2),
    {
        let base = String::from_str(ASSET_ENDPOINT);
        base.concat(trim_start_char(self.path.as_str(), '/'))
    }
}

} // verus!
