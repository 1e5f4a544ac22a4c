//! The read query over ad records: filters, language-specific text search,
//! ordering and bounded pagination.

use vstd::prelude::*;
use crate::ads::Ad;
use crate::text::str_eq;

verus! {

/// Rows per page.
pub const PAGE_SIZE: u64 = 20;

/// Deepest offset a query may start at.
pub const MAX_OFFSET: u64 = 1000;

/// Political probability, in millionths, that a record must exceed to be read.
pub const MIN_POLITICAL_PROBABILITY: u32 = 800000;

/// Language tag served with the German text-search configuration.
pub const GERMAN_TAG: &'static str = "de-DE";

/// Text-search configuration used to derive document vectors and parse queries.
#[derive(Clone, Copy, Debug, PartialEq, Eq, Structural)]
pub enum SearchConfig {
    German,
    English,
}

/// Row ordering of a query.
#[derive(Clone, Copy, Debug, PartialEq, Eq, Structural)]
pub enum QueryOrder {
    /// Descending text-search relevance, used whenever a search is active.
    Relevance,
    /// Newest first.
    Newest,
}

/// The recognised query options.
pub struct QueryOptions {
    pub search: Option<String>,
    pub page: Option<String>,
}

/// An active free-text search.
pub struct TextSearch {
    pub config: SearchConfig,
    pub terms: String,
}

/// A read over the records of one language that are not suppressed and whose
/// political probability exceeds `min_political_probability`.
pub struct AdQuery {
    pub lang: String,
    pub min_political_probability: u32,
    pub search: Option<TextSearch>,
    pub order: QueryOrder,
    pub offset: u64,
    pub limit: u64,
}

pub open spec fn is_digit(c: char) -> bool {
    '0' <= c && c <= '9'
}

/// Decimal value of a run of digits.
pub open spec fn digits_value(s: Seq<char>) -> int
    decreases s.len(),
{
    if s.len() == 0 {
        0
    } else {
        digits_value(s.drop_last()) * 10 + (s.last() as int - '0' as int)
    }
}

/// The digits of an unsigned decimal: `s` without one leading `+`.
pub open spec fn unsigned_digits(s: Seq<char>) -> Seq<char> {
    if s.len() > 0 && s[0] == '+' {
        s.drop_first()
    } else {
        s
    }
}

/// The page number `s` denotes: its value where it is an unsigned decimal
/// that fits in 64 bits, else 0.
pub open spec fn page_number(s: Seq<char>) -> int {
    let d = unsigned_digits(s);
    if d.len() > 0 && (forall|i: int| 0 <= i < d.len() ==> is_digit(#[trigger] d[i])) && digits_value(d)
        <= u64::MAX {
        digits_value(d)
    } else {
        0
    }
}

/// Row offset for an optional page: twenty rows per page, at most 1000.
pub open spec fn page_offset(page: Option<Seq<char>>) -> int {
    match page {
        Some(s) => if page_number(s) * PAGE_SIZE > MAX_OFFSET {
            MAX_OFFSET as int
        } else {
            page_number(s) * PAGE_SIZE
        },
        None => 0,
    }
}

proof fn lemma_digits_value_grows(s: Seq<char>, j: int)
    requires
        0 <= j <= s.len(),
        forall|i: int| 0 <= i < s.len() ==> is_digit(#[trigger] s[i]),
    ensures
        digits_value(s.subrange(0, j)) <= digits_value(s),
        0 <= digits_value(s),
    decreases s.len(),
{
    if s.len() > 0 {
        let t = s.drop_last();
        assert forall|i: int| 0 <= i < t.len() implies is_digit(#[trigger] t[i]) by {
            assert(t[i] == s[i]);
        }
        if j < s.len() {
            assert(s.subrange(0, j) =~= t.subrange(0, j));
            lemma_digits_value_grows(t, j);
        } else {
            assert(s.subrange(0, j) =~= s);
            lemma_digits_value_grows(t, 0);
        }
    } else {
        assert(s.subrange(0, j) =~= s);
    }
}

/// Parses a page number the way an unsigned integer parse does, falling back
/// to 0 on text that is not one.
pub fn parse_page(s: &str) -> (r: u64)
    ensures
        r == page_number(s@),
{
    let n = s.unicode_len();
    let mut i: usize = 0;
    if n > 0 && s.get_char(0) == '+' {
        i = 1;
    }
    let ghost d = unsigned_digits(s@);
    assert(d =~= s@.subrange(i as int, n as int));
    if i == n {
        return 0;
    }
    let start = i;
    let mut v: u64 = 0;
    while i < n
        invariant
            n == s@.len(),
            start <= i <= n,
            d =~= s@.subrange(start as int, n as int),
            d == unsigned_digits(s@),
            forall|k: int| 0 <= k < i - start ==> is_digit(#[trigger] d[k]),
            v == digits_value(d.subrange(0, i - start)),
        decreases n - i,
    {
        let c = s.get_char(i);
        if c < '0' || c > '9' {
            assert(!is_digit(d[i - start]));
            return 0;
        }
        assert(d.subrange(0, i + 1 - start).drop_last() =~= d.subrange(0, i - start));
        let digit = (c as u32 - '0' as u32) as u128;
        let next: u128 = v as u128 * 10 + digit;
        assert(d.subrange(0, i + 1 - start).last() == c);
        assert(next == digits_value(d.subrange(0, i + 1 - start)));
        if next > u64::MAX as u128 {
            proof {
                if forall|q: int| 0 <= q < d.len() ==> is_digit(#[trigger] d[q]) {
                    lemma_digits_value_grows(d, i + 1 - start);
                }
            }
            return 0;
        }
        v = next as u64;
        i = i + 1;
    }
    assert(d.subrange(0, n - start) =~= d);
    v
}

impl QueryOptions {
    /// Row offset for the page option.
    pub fn offset(&self) -> (r: u64)
        ensures
            r == page_offset(
                match self.page {
                    Some(p) => Some(p@),
                    None => None,
                },
            ),
    {
        match &self.page {
            Some(p) => {
                let n = parse_page(p.as_str());
                if n > MAX_OFFSET / PAGE_SIZE {
                    MAX_OFFSET
                } else {
                    n * PAGE_SIZE
                }
            },
            None => 0,
        }
    }
}

/// Whatever page is asked for, a read starts at a multiple of the page size
/// no deeper than the maximum offset.
pub proof fn lemma_offset_bounded(page: Option<Seq<char>>)
    ensures
        0 <= page_offset(page) <= MAX_OFFSET,
        page_offset(page) % (PAGE_SIZE as int) == 0,
{
    if let Some(s) = page {
        let n = page_number(s);
        let d = unsigned_digits(s);
        if d.len() > 0 && (forall|i: int| 0 <= i < d.len() ==> is_digit(#[trigger] d[i])) {
            lemma_digits_value_grows(d, 0);
        }
        assert(n >= 0);
        assert((n * 20) % 20 == 0) by (nonlinear_arith)
            requires n >= 0;
    }
}

/// The text-search configuration for a language tag.
pub open spec fn config_for(lang: Seq<char>) -> SearchConfig {
    if lang == GERMAN_TAG@ {
        SearchConfig::German
    } else {
        SearchConfig::English
    }
}

impl Ad {
    /// The read for `language`: records of that language, not suppressed, with
    /// political probability above 0.80; an optional text search in the
    /// language's configuration, ordered by relevance; otherwise newest first;
    /// twenty rows from the page's offset.
    pub fn get_ads_by_lang(language: &str, options: &QueryOptions) -> (r: AdQuery)
        ensures
            r.lang@ == language@,
            r.min_political_probability == MIN_POLITICAL_PROBABILITY,
            r.limit == PAGE_SIZE,
            r.offset == page_offset(
                match options.page {
                    Some(p) => Some(p@),
                    None => None,
                },
            ),
            match options.search {
                Some(t) => r.search is Some && r.search->Some_0.terms@ == t@
                    && r.search->Some_0.config == config_for(language@) && r.order
                    == QueryOrder::Relevance,
                None => r.search is None && r.order == QueryOrder::Newest,
            },
    {
        let search = match &options.search {
            Some(t) => Some(
                TextSearch {
                    config: if str_eq(language, GERMAN_TAG) {
                        SearchConfig::German
                    } else {
                        SearchConfig::English
                    },
                    terms: t.clone(),
                },
            ),
            None => None,
        };
        let order = if search.is_some() {
            QueryOrder::Relevance
        } else {
            QueryOrder::Newest
        };
        AdQuery {
            lang: language.to_string(),
            min_political_probability: MIN_POLITICAL_PROBABILITY,
            search,
            order,
            offset: options.offset(),
            limit: PAGE_SIZE,
        }
    }
}

/// The record passes the query's filters other than the text match.
pub open spec fn admitted(q: AdQuery, ad: Ad) -> bool {
    &&& ad.lang@ == q.lang@
    &&& ad.political_probability > q.min_political_probability
    &&& !ad.suppressed
}

impl AdQuery {
    /// Whether `ad` passes the language, probability and suppression filters.
    pub fn admits(&self, ad: &Ad) -> (r: bool)
        ensures
            r == admitted(*self, *ad),
    {
        str_eq(ad.lang.as_str(), self.lang.as_str()) && ad.political_probability
            > self.min_political_probability && !ad.suppressed
    }
}

} // verus!
