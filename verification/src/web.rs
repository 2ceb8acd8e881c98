//! Addresses and pages: what the URL and HTML parsers make of a text.

use vstd::prelude::*;

verus! {

/// A URL taken apart.
pub struct UrlParts {
    /// The URL as the parser writes it.
    pub text: String,
    pub host: Option<String>,
    pub path: String,
    /// The pairs of the query, each a name with its value, decoded.
    pub query: Vec<(String, String)>,
}

impl UrlParts {
    /// The parts as plain values: the text, the host, the path and the
    /// pairs of the query.
    pub open spec fn shape(&self) -> (
        Seq<char>,
        Option<Seq<char>>,
        Seq<char>,
        Seq<(Seq<char>, Seq<char>)>,
    ) {
        (self.text@, self.host.deep_view(), self.path@, self.query.deep_view())
    }
}

/// What the URL parser makes of `text`: the parts of the URL that it is,
/// namely the URL as the parser writes it, its host, its path, and the
/// decoded pairs of its query in their order; or, where `text` is no URL,
/// what the parser says is wrong with it.
pub uninterp spec fn url_parse(text: Seq<char>) -> Result<
    (Seq<char>, Option<Seq<char>>, Seq<char>, Seq<(Seq<char>, Seq<char>)>),
    Seq<char>,
>;

/// The parts of the URL that `text` is, `None` where it is no URL.
pub open spec fn url_parts(text: Seq<char>) -> Option<
    (Seq<char>, Option<Seq<char>>, Seq<char>, Seq<(Seq<char>, Seq<char>)>),
> {
    match url_parse(text) {
        Ok(parts) => Some(parts),
        Err(_) => None,
    }
}

/// What the parser says is wrong with `text` where it is no URL.
pub open spec fn url_fault(text: Seq<char>) -> Seq<char> {
    match url_parse(text) {
        Ok(_) => Seq::empty(),
        Err(fault) => fault,
    }
}

/// `Url::parse`, then `Url::host_str`, `Url::path`, `Url::query_pairs` and
/// the URL's own text; the text of the parser's error where it fails.
#[verifier::external_body]
pub(crate) fn parse_url(text: &str) -> (r: Result<UrlParts, String>)
    ensures
        match r {
            Ok(parts) => url_parse(text@) == Ok::<
                (Seq<char>, Option<Seq<char>>, Seq<char>, Seq<(Seq<char>, Seq<char>)>),
                Seq<char>,
            >(parts.shape()),
            Err(fault) => url_parse(text@) == Err::<
                (Seq<char>, Option<Seq<char>>, Seq<char>, Seq<(Seq<char>, Seq<char>)>),
                Seq<char>,
            >(fault@),
        },
{
    match http_types::Url::parse(text) {
        Ok(url) => Ok(
            UrlParts {
                host: url.host_str().map(|h| h.to_string()),
                path: url.path().to_string(),
                query: url.query_pairs().map(|(k, v)| (k.into_owned(), v.into_owned())).collect(),
                text: url.into(),
            },
        ),
        Err(e) => Err(e.to_string()),
    }
}

/// What finds the logo in the page of a channel.
pub const LOGO_SELECTOR: &'static str = "link[rel=image_src][href]";

/// What finds the tags in the page of a channel: every `meta` whose
/// property begins with `og`, holds `video` and ends with `tag`.
pub const TAG_SELECTOR: &'static str =
    "meta[property^=og][property*=video][property$=tag][content]";

/// What finds the address of a channel in its page.
pub const CANONICAL_SELECTOR: &'static str = "link[rel=canonical][href]";

/// Whether `selector` is one of the selectors that this crate looks for.
pub open spec fn known_selector(selector: Seq<char>) -> bool {
    selector == LOGO_SELECTOR@ || selector == TAG_SELECTOR@ || selector == CANONICAL_SELECTOR@
}

/// What the HTML parser finds in the page `html` with the selector
/// `selector`: where the page cannot be parsed, what the parser says is
/// wrong with it; else `None` where the parser refuses the selector; else,
/// for each node found, in the order of the page, what looking up the
/// attribute `attribute` gives. That is `None` where the node cannot be had,
/// `Some(None)` where it is no tag, `Some(Some(None))` where the tag has no
/// such attribute, `Some(Some(Some(None)))` where the attribute has no
/// value, and the value else.
pub uninterp spec fn html_select(
    html: Seq<char>,
    selector: Seq<char>,
    attribute: Seq<char>,
) -> Result<Option<Seq<Option<Option<Option<Option<Seq<char>>>>>>>, Seq<char>>;

/// `tl::parse`, then `VDom::query_selector` and, for each node found,
/// `NodeHandle::get`, `Node::as_tag` and `Attributes::get`, with nothing
/// left out; the text of the parser's error where the page cannot be
/// parsed. Only the selectors that this crate looks for are handed in.
#[verifier::external_body]
fn select_nodes(html: &str, selector: &str, attribute: &str) -> (r: Result<
    Option<Vec<Option<Option<Option<Option<String>>>>>>,
    String,
>)
    requires
        known_selector(selector@),
    ensures
        match r {
            Ok(found) => html_select(html@, selector@, attribute@) == Ok::<
                Option<Seq<Option<Option<Option<Option<Seq<char>>>>>>>,
                Seq<char>,
            >(found.deep_view()),
            Err(fault) => html_select(html@, selector@, attribute@) == Err::<
                Option<Seq<Option<Option<Option<Option<Seq<char>>>>>>>,
                Seq<char>,
            >(fault@),
        },
{
    let dom = tl::parse(html, tl::ParserOptions::default()).map_err(|e| e.to_string())?;
    let look = |tag: &tl::HTMLTag| {
        tag.attributes().get(attribute).map(|v| v.map(|v| v.as_utf8_str().into_owned()))
    };
    Ok(
        dom.query_selector(selector).map(
            |found| found.map(|h| h.get(dom.parser()).map(|n| n.as_tag().map(look))).collect(),
        ),
    )
}

/// What a found node gives for the attribute that was looked up: `None`
/// where it is no tag or cannot be had, `Some(None)` where the tag lacks
/// the attribute or the attribute has no value, and the value else.
pub open spec fn node_value(raw: Option<Option<Option<Option<Seq<char>>>>>) -> Option<
    Option<Seq<char>>,
> {
    match raw {
        Some(Some(looked_up)) => match looked_up {
            Some(Some(value)) => Some(Some(value)),
            _ => Some(None),
        },
        _ => None,
    }
}

/// What the found nodes give for the attribute that was looked up.
pub open spec fn node_values(raw: Seq<Option<Option<Option<Option<Seq<char>>>>>>) -> Seq<
    Option<Option<Seq<char>>>,
> {
    raw.map_values(|node: Option<Option<Option<Option<Seq<char>>>>>| node_value(node))
}

/// Tells what a found node gives for the attribute that was looked up.
pub fn value_of_node(raw: Option<Option<Option<Option<String>>>>) -> (r: Option<Option<String>>)
    ensures
        r.deep_view() == node_value(raw.deep_view()),
{
    match raw {
        Some(Some(looked_up)) => match looked_up {
            Some(Some(value)) => Some(Some(value)),
            _ => Some(None),
        },
        _ => None,
    }
}

/// Tells what each of the found nodes gives for the attribute that was
/// looked up.
pub fn values_of_nodes(raw: Vec<Option<Option<Option<Option<String>>>>>) -> (r: Vec<
    Option<Option<String>>,
>)
    ensures
        r.deep_view() == node_values(raw.deep_view()),
{
    let ghost all = raw@;
    let ghost shown = raw.deep_view();
    assert(forall|k: int| 0 <= k < all.len() ==> shown[k] == all[k].deep_view());
    let mut out: Vec<Option<Option<String>>> = Vec::new();
    for node in it: raw.into_iter()
        invariant
            it.seq() == all,
            shown == raw.deep_view(),
            all.len() == shown.len(),
            forall|k: int| 0 <= k < all.len() ==> shown[k] == (#[trigger] all[k]).deep_view(),
            out.len() == it.index(),
            forall|k: int| 0 <= k < it.index() ==> (#[trigger] out[k]).deep_view() == node_value(
                shown[k],
            ),
    {
        let ghost i = it.index() as int;
        assert(shown[i] == all[i].deep_view());
        out.push(value_of_node(node));
    }
    assert(out.deep_view() == node_values(shown)) by {
        assert(out.deep_view().len() == node_values(shown).len());
        assert forall|k: int| 0 <= k < out.len() implies out.deep_view()[k] == node_values(
            shown,
        )[k] by {
            assert(out.deep_view()[k] == out[k].deep_view());
        }
    }
    out
}

/// What the selector `selector` finds in the page `html`: where the page
/// cannot be parsed, what the parser says is wrong with it; else `None`
/// where the parser refuses the selector; else what each node found gives
/// for the attribute `attribute`.
pub open spec fn html_values(html: Seq<char>, selector: Seq<char>, attribute: Seq<char>) -> Result<
    Option<Seq<Option<Option<Seq<char>>>>>,
    Seq<char>,
> {
    match html_select(html, selector, attribute) {
        Ok(Some(raw)) => Ok(Some(node_values(raw))),
        Ok(None) => Ok(None),
        Err(fault) => Err(fault),
    }
}

/// Looks up the attribute `attribute` of the nodes that one of this
/// crate's selectors finds in the page `html`.
pub(crate) fn select_attributes(html: &str, selector: &str, attribute: &str) -> (r: Result<
    Option<Vec<Option<Option<String>>>>,
    String,
>)
    requires
        known_selector(selector@),
    ensures
        match r {
            Ok(found) => html_values(html@, selector@, attribute@) == Ok::<
                Option<Seq<Option<Option<Seq<char>>>>>,
                Seq<char>,
            >(found.deep_view()),
            Err(fault) => html_values(html@, selector@, attribute@) == Err::<
                Option<Seq<Option<Option<Seq<char>>>>>,
                Seq<char>,
            >(fault@),
        },
{
    match select_nodes(html, selector, attribute) {
        Ok(Some(raw)) => Ok(Some(values_of_nodes(raw))),
        Ok(None) => Ok(None),
        Err(fault) => Err(fault),
    }
}

} // verus!
