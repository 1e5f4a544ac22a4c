//! Structured content extracted from third-party ad markup by ordered selector
//! strategies. Markup is parsed and queried through kuchiki.

use vstd::prelude::*;
use kuchiki::traits::TendrilSink;

verus! {

/// Selector list whose first match in document order carries the title.
pub const TITLE_SELECTOR: &'static str = "h5 a, h6 a, strong, span.fsl";

/// Selector of image nodes.
pub const IMAGE_SELECTOR: &'static str = "img";

/// Attribute holding an image node's source.
pub const SOURCE_ATTR: &'static str = "src";

/// Selector of the block container whose markup is kept after rewriting.
pub const CONTAINER_SELECTOR: &'static str = "div";

/// Message containers, tried in this order.
pub const MESSAGE_SELECTOR_BODY: &'static str = ".userContent p";

pub const MESSAGE_SELECTOR_BLOCK: &'static str = "div.mbs";

pub const MESSAGE_SELECTOR_INLINE: &'static str = "span";

/// A required structural element that the markup lacks.
#[derive(Clone, Copy, Debug, PartialEq, Eq, Structural)]
pub enum ExtractError {
    Title,
    Image,
    Message,
    /// No block container is left in rewritten markup.
    Container,
}

pub open spec fn strs_view(v: Seq<String>) -> Seq<Seq<char>> {
    v.map_values(|s: String| s@)
}

pub open spec fn opt_strs_view(o: Option<Vec<String>>) -> Option<Seq<Seq<char>>> {
    match o {
        Some(v) => Some(strs_view(v@)),
        None => None,
    }
}

pub open spec fn attrs_view(v: Seq<Option<String>>) -> Seq<Option<Seq<char>>> {
    v.map_values(
        |o: Option<String>|
            match o {
                Some(s) => Some(s@),
                None => None,
            },
    )
}

pub open spec fn opt_attrs_view(o: Option<Vec<Option<String>>>) -> Option<Seq<Option<Seq<char>>>> {
    match o {
        Some(v) => Some(attrs_view(v@)),
        None => None,
    }
}

/// Text content of each node of `html` that `selector` matches, in document
/// order; `None` where the selector does not compile.
pub uninterp spec fn selected_texts(html: Seq<char>, selector: Seq<char>) -> Option<Seq<Seq<char>>>;

/// Serialised markup of each node of `html` that `selector` matches.
pub uninterp spec fn selected_markup(html: Seq<char>, selector: Seq<char>) -> Option<Seq<Seq<char>>>;

/// Attribute `attr` of each node of `html` that `selector` matches.
pub uninterp spec fn selected_attrs(html: Seq<char>, selector: Seq<char>, attr: Seq<char>) -> Option<
    Seq<Option<Seq<char>>>,
>;

/// `html` serialised after the `i`-th node that `selector` matches has had its
/// attribute `attr`, where present, set to `values[i]`.
pub uninterp spec fn with_attrs(
    html: Seq<char>,
    selector: Seq<char>,
    attr: Seq<char>,
    values: Seq<Seq<char>>,
) -> Option<Seq<char>>;

/// Relies on kuchiki's `parse_html`, `NodeRef::select` and
/// `NodeRef::text_contents`: the text of each match, in document order.
#[verifier::external_body]
fn select_texts(html: &str, selector: &str) -> (r: Option<Vec<String>>)
    ensures
        opt_strs_view(r) == selected_texts(html@, selector@),
{
    let document = kuchiki::parse_html().one(html);
    let matches = document.select(selector).ok()?;
    Some(matches.map(|m| m.text_contents()).collect())
}

/// Relies on kuchiki's `parse_html`, `NodeRef::select` and the serialisation of
/// `NodeRef::to_string`: the markup of each match, in document order.
#[verifier::external_body]
fn select_markup(html: &str, selector: &str) -> (r: Option<Vec<String>>)
    ensures
        opt_strs_view(r) == selected_markup(html@, selector@),
{
    let document = kuchiki::parse_html().one(html);
    let matches = document.select(selector).ok()?;
    Some(matches.map(|m| m.as_node().to_string()).collect())
}

/// Relies on kuchiki's `parse_html`, `NodeRef::select` and `Attributes::get`:
/// one entry per match, in document order.
#[verifier::external_body]
fn select_attrs(html: &str, selector: &str, attr: &str) -> (r: Option<Vec<Option<String>>>)
    ensures
        opt_attrs_view(r) == selected_attrs(html@, selector@, attr@),
{
    let document = kuchiki::parse_html().one(html);
    let matches = document.select(selector).ok()?;
    Some(matches.map(|m| m.attributes.borrow().get(attr).map(|v| v.to_string())).collect())
}

/// Relies on kuchiki's `parse_html`, `NodeRef::select`, `Attributes::get_mut`
/// and `NodeRef::to_string`: sets the attribute of the matches in order and
/// serialises the whole document.
#[verifier::external_body]
fn rewrite_attrs(html: &str, selector: &str, attr: &str, values: &Vec<String>) -> (r: Option<String>)
    ensures
        match r {
            Some(s) => with_attrs(html@, selector@, attr@, strs_view(values@)) == Some(s@),
            None => with_attrs(html@, selector@, attr@, strs_view(values@)) is None,
        },
{
    let document = kuchiki::parse_html().one(html);
    let matches = document.select(selector).ok()?;
    for (m, v) in matches.zip(values.iter()) {
        if let Some(x) = m.attributes.borrow_mut().get_mut(attr) {
            *x = v.clone();
        }
    }
    Some(document.to_string())
}

/// The title: text of the first node matching the title selector list.
pub open spec fn title_of(html: Seq<char>) -> Option<Seq<char>> {
    match selected_texts(html, TITLE_SELECTOR@) {
        Some(ts) => if ts.len() > 0 {
            Some(ts[0])
        } else {
            None
        },
        None => None,
    }
}

/// The thumbnail: source of the first image node.
pub open spec fn thumbnail_of(html: Seq<char>) -> Option<Seq<char>> {
    match selected_attrs(html, IMAGE_SELECTOR@, SOURCE_ATTR@) {
        Some(a) => if a.len() > 0 {
            a[0]
        } else {
            None
        },
        None => None,
    }
}

/// The values that are present, in order.
pub open spec fn present(s: Seq<Option<Seq<char>>>) -> Seq<Seq<char>>
    decreases s.len(),
{
    if s.len() == 0 {
        Seq::empty()
    } else {
        match s.last() {
            Some(x) => present(s.drop_last()).push(x),
            None => present(s.drop_last()),
        }
    }
}

/// The gallery: sources of every image node but the first, where present.
pub open spec fn gallery_of(html: Seq<char>) -> Option<Seq<Seq<char>>> {
    match selected_attrs(html, IMAGE_SELECTOR@, SOURCE_ATTR@) {
        Some(a) => if a.len() > 0 {
            Some(present(a.drop_first()))
        } else {
            Some(Seq::empty())
        },
        None => None,
    }
}

/// The pieces one after another.
pub open spec fn joined(s: Seq<Seq<char>>) -> Seq<char>
    decreases s.len(),
{
    if s.len() == 0 {
        Seq::empty()
    } else {
        joined(s.drop_last()) + s.last()
    }
}

/// Markup of every match of `selector`, concatenated; empty where it does not
/// compile.
pub open spec fn markup_joined(html: Seq<char>, selector: Seq<char>) -> Seq<char> {
    match selected_markup(html, selector) {
        Some(ms) => joined(ms),
        None => Seq::empty(),
    }
}

pub open spec fn message_selectors() -> Seq<Seq<char>> {
    seq![MESSAGE_SELECTOR_BODY@, MESSAGE_SELECTOR_BLOCK@, MESSAGE_SELECTOR_INLINE@]
}

/// The first non-empty concatenation over `selectors`, tried in order.
pub open spec fn first_message(html: Seq<char>, selectors: Seq<Seq<char>>) -> Option<Seq<char>>
    decreases selectors.len(),
{
    if selectors.len() == 0 {
        None
    } else if markup_joined(html, selectors[0]).len() > 0 {
        Some(markup_joined(html, selectors[0]))
    } else {
        first_message(html, selectors.drop_first())
    }
}

/// The message: markup of the first message container strategy that yields any.
pub open spec fn message_of(html: Seq<char>) -> Option<Seq<char>> {
    first_message(html, message_selectors())
}

/// The markup of the first block container.
pub open spec fn container_of(html: Seq<char>) -> Option<Seq<char>> {
    match selected_markup(html, CONTAINER_SELECTOR@) {
        Some(ms) => if ms.len() > 0 {
            Some(ms[0])
        } else {
            None
        },
        None => None,
    }
}

/// `r` is `Ok` with the value `expected` holds, or fails with `err` where it
/// holds none.
pub open spec fn found(r: Result<String, ExtractError>, expected: Option<Seq<char>>, err: ExtractError) -> bool {
    match r {
        Ok(s) => expected == Some(s@),
        Err(e) => expected is None && e == err,
    }
}

/// Text of the first node matching the title selector list.
pub fn get_title(html: &str) -> (r: Result<String, ExtractError>)
    ensures
        found(r, title_of(html@), ExtractError::Title),
{
    match select_texts(html, TITLE_SELECTOR) {
        Some(ts) => {
            if ts.len() > 0 {
                let t = ts[0].clone();
                Ok(t)
            } else {
                Err(ExtractError::Title)
            }
        },
        None => Err(ExtractError::Title),
    }
}

/// Source of the first image node.
pub fn get_image(html: &str) -> (r: Result<String, ExtractError>)
    ensures
        found(r, thumbnail_of(html@), ExtractError::Image),
{
    match select_attrs(html, IMAGE_SELECTOR, SOURCE_ATTR) {
        Some(a) => {
            if a.len() > 0 {
                match &a[0] {
                    Some(s) => Ok(s.clone()),
                    None => Err(ExtractError::Image),
                }
            } else {
                Err(ExtractError::Image)
            }
        },
        None => Err(ExtractError::Image),
    }
}

/// Sources of every image node after the first, skipping nodes without one.
pub fn get_images(html: &str) -> (r: Result<Vec<String>, ExtractError>)
    ensures
        match r {
            Ok(v) => gallery_of(html@) == Some(strs_view(v@)),
            Err(e) => gallery_of(html@) is None && e == ExtractError::Image,
        },
{
    match select_attrs(html, IMAGE_SELECTOR, SOURCE_ATTR) {
        Some(a) => {
            let ghost av = attrs_view(a@);
            let mut out: Vec<String> = Vec::new();
            if a.len() == 0 {
                assert(strs_view(out@) =~= Seq::empty());
                return Ok(out);
            }
            let mut i: usize = 1;
            while i < a.len()
                invariant
                    1 <= i <= a@.len(),
                    av == attrs_view(a@),
                    strs_view(out@) == present(av.subrange(1, i as int)),
                decreases a@.len() - i,
            {
                let ghost before = av.subrange(1, i as int);
                assert(av.subrange(1, i + 1).drop_last() =~= before);
                match &a[i] {
                    Some(s) => {
                        out.push(s.clone());
                        assert(strs_view(out@) =~= present(before).push(av[i as int]->Some_0));
                    },
                    None => {},
                }
                i = i + 1;
            }
            assert(av.subrange(1, i as int) =~= av.drop_first());
            Ok(out)
        },
        None => Err(ExtractError::Image),
    }
}

/// Concatenated markup of every match of `selector`.
fn joined_markup(html: &str, selector: &str) -> (r: String)
    ensures
        r@ == markup_joined(html@, selector@),
{
    match select_markup(html, selector) {
        Some(ms) => {
            let ghost mv = strs_view(ms@);
            let mut out = String::new();
            let mut i: usize = 0;
            while i < ms.len()
                invariant
                    i <= ms@.len(),
                    mv == strs_view(ms@),
                    out@ == joined(mv.subrange(0, i as int)),
                decreases ms@.len() - i,
            {
                assert(mv.subrange(0, i + 1).drop_last() =~= mv.subrange(0, i as int));
                out = out.concat(ms[i].as_str());
                i = i + 1;
            }
            assert(mv.subrange(0, i as int) =~= mv);
            out
        },
        None => String::new(),
    }
}

/// Markup of the first message container strategy whose matches are non-empty.
pub fn get_message(html: &str) -> (r: Result<String, ExtractError>)
    ensures
        found(r, message_of(html@), ExtractError::Message),
{
    let selectors: Vec<&str> = vec![
        MESSAGE_SELECTOR_BODY,
        MESSAGE_SELECTOR_BLOCK,
        MESSAGE_SELECTOR_INLINE,
    ];
    let ghost sv = message_selectors();
    assert(selectors@.map_values(|s: &str| s@) =~= sv);
    let mut i: usize = 0;
    assert(sv.subrange(0, sv.len() as int) =~= sv);
    while i < selectors.len()
        invariant
            i <= selectors@.len() == sv.len(),
            sv == message_selectors(),
            selectors@.map_values(|s: &str| s@) == sv,
            first_message(html@, sv) == first_message(html@, sv.subrange(i as int, sv.len() as int)),
        decreases selectors@.len() - i,
    {
        let ghost rest = sv.subrange(i as int, sv.len() as int);
        assert(rest.drop_first() =~= sv.subrange(i + 1, sv.len() as int));
        assert(rest[0] == selectors@.map_values(|s: &str| s@)[i as int]);
        let m = joined_markup(html, selectors[i]);
        assert(first_message(html@, rest) == if m@.len() > 0 {
            Some(m@)
        } else {
            first_message(html@, rest.drop_first())
        });
        if m.unicode_len() > 0 {
            assert(message_of(html@) == first_message(html@, sv));
            assert(first_message(html@, rest) == Some(m@));
            return Ok(m);
        }
        i = i + 1;
    }
    Err(ExtractError::Message)
}

/// Markup of the first block container.
pub fn get_container(html: &str) -> (r: Result<String, ExtractError>)
    ensures
        found(r, container_of(html@), ExtractError::Container),
{
    match select_markup(html, CONTAINER_SELECTOR) {
        Some(ms) => {
            if ms.len() > 0 {
                Ok(ms[0].clone())
            } else {
                Err(ExtractError::Container)
            }
        },
        None => Err(ExtractError::Container),
    }
}

/// `html` with the source of the `i`-th image node, where it has one, set to
/// `sources[i]`.
pub fn rewrite_sources(html: &str, sources: &Vec<String>) -> (r: Option<String>)
    ensures
        match r {
            Some(s) => with_attrs(html@, IMAGE_SELECTOR@, SOURCE_ATTR@, strs_view(sources@)) == Some(s@),
            None => with_attrs(html@, IMAGE_SELECTOR@, SOURCE_ATTR@, strs_view(sources@)) is None,
        },
{
    rewrite_attrs(html, IMAGE_SELECTOR, SOURCE_ATTR, sources)
}

/// Sources of all image nodes, one entry per node.
pub fn image_sources(html: &str) -> (r: Option<Vec<Option<String>>>)
    ensures
        opt_attrs_view(r) == selected_attrs(html@, IMAGE_SELECTOR@, SOURCE_ATTR@),
{
    select_attrs(html, IMAGE_SELECTOR, SOURCE_ATTR)
}

} // verus!
