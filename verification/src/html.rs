//! HTML assembly, delegated to the `build_html` crate.
//!
//! The wrap stages and the features build their HTML documents through the
//! builders of `build_html`.  A builder value is opaque to the verifier, so
//! its state is modeled by named observers: a page has a head and a body
//! string, a container has a tag, an attribute list and a list of rendered
//! children.  Each wrapper below makes one `build_html` call and states,
//! over those observers, exactly the fragment the call appends, as the
//! crate's source shows it; the rendering of the modeled state into the
//! final string is written out in the spec functions here.

use vstd::prelude::*;
use build_html::{Html, HtmlContainer};

verus! {

#[verifier::external_type_specification]
#[verifier::external_body]
pub struct ExHtmlPage(build_html::HtmlPage);

#[verifier::external_type_specification]
#[verifier::external_body]
pub struct ExContainer(build_html::Container);

/// What the head of the page holds so far: a concatenation of rendered
/// header elements.
pub uninterp spec fn hp_head(p: build_html::HtmlPage) -> Seq<char>;

/// What the body of the page holds so far: a concatenation of rendered
/// body elements.
pub uninterp spec fn hp_body(p: build_html::HtmlPage) -> Seq<char>;

/// The container's HTML tag name.
pub uninterp spec fn ct_tag(c: build_html::Container) -> Seq<char>;

/// The container's attributes, as (name, value) pairs in insertion order.
pub uninterp spec fn ct_attrs(c: build_html::Container) -> Seq<(Seq<char>, Seq<char>)>;

/// The container's children, each already rendered to its HTML text, in
/// insertion order.
pub uninterp spec fn ct_children(c: build_html::Container) -> Seq<Seq<char>>;

/// The attribute string of the pairs: ` name="value"` for each pair, in
/// order, with a leading space before each.
pub open spec fn attrs_str(attrs: Seq<(Seq<char>, Seq<char>)>) -> Seq<char>
    decreases attrs.len(),
{
    if attrs.len() == 0 {
        Seq::empty()
    } else {
        attrs_str(attrs.drop_last()) + " "@ + attrs.last().0 + "=\""@ + attrs.last().1 + "\""@
    }
}

/// The concatenation of the rendered children.
pub open spec fn concat_all(parts: Seq<Seq<char>>) -> Seq<char>
    decreases parts.len(),
{
    if parts.len() == 0 {
        Seq::empty()
    } else {
        concat_all(parts.drop_last()) + parts.last()
    }
}

/// A rendered container: a self-closing tag when it has no children, else
/// the children between an opening and a closing tag.
pub open spec fn container_html(
    tag: Seq<char>,
    attrs: Seq<(Seq<char>, Seq<char>)>,
    children: Seq<Seq<char>>,
) -> Seq<char> {
    if children.len() == 0 {
        "<"@ + tag + attrs_str(attrs) + "/>"@
    } else {
        "<"@ + tag + attrs_str(attrs) + ">"@ + concat_all(children) + "</"@ + tag + ">"@
    }
}

/// A child added to a list container is wrapped in a list element; other
/// containers take it as it is.
pub open spec fn li_wrap(tag: Seq<char>, child: Seq<char>) -> Seq<char> {
    if tag == "ol"@ || tag == "ul"@ {
        "<li>"@ + child + "</li>"@
    } else {
        child
    }
}

/// A rendered `<a>` element.
pub open spec fn link_html(
    href: Seq<char>,
    text: Seq<char>,
    attrs: Seq<(Seq<char>, Seq<char>)>,
) -> Seq<char> {
    "<a href=\""@ + href + "\""@ + attrs_str(attrs) + ">"@ + text + "</a>"@
}

/// A rendered `<meta>` header element.
pub open spec fn meta_html(attrs: Seq<(Seq<char>, Seq<char>)>) -> Seq<char> {
    "<meta"@ + attrs_str(attrs) + ">"@
}

/// A rendered `<link>` header element.
pub open spec fn head_link_html(
    href: Seq<char>,
    rel: Seq<char>,
    attrs: Seq<(Seq<char>, Seq<char>)>,
) -> Seq<char> {
    "<link href=\""@ + href + "\" rel=\""@ + rel + "\""@ + attrs_str(attrs) + ">"@
}

/// A rendered `<title>` header element.
pub open spec fn title_html(text: Seq<char>) -> Seq<char> {
    "<title>"@ + text + "</title>"@
}

/// A rendered HTML5 page around the given head and body content.
pub open spec fn page_html(head: Seq<char>, body: Seq<char>) -> Seq<char> {
    "<!DOCTYPE html><html><head>"@ + head + "</head><body>"@ + body + "</body></html>"@
}

/// The views of a list of attribute pairs.
pub open spec fn attr_views(pairs: Seq<(String, String)>) -> Seq<(Seq<char>, Seq<char>)> {
    pairs.map(|i: int, kv: (String, String)| (kv.0@, kv.1@))
}

/// Relies on `build_html::HtmlPage::new`: a fresh HTML5 page with empty
/// head and body strings.
#[verifier::external_body]
pub(crate) fn hp_new() -> (r: build_html::HtmlPage)
    ensures
        hp_head(r) == Seq::<char>::empty(),
        hp_body(r) == Seq::<char>::empty(),
{
    build_html::HtmlPage::new()
}

/// Relies on `build_html::HtmlPage::with_title`: appends
/// `<title>text</title>` to the head.
#[verifier::external_body]
pub(crate) fn hp_with_title(p: build_html::HtmlPage, text: &str) -> (r: build_html::HtmlPage)
    ensures
        hp_head(r) == hp_head(p) + title_html(text@),
        hp_body(r) == hp_body(p),
{
    p.with_title(text)
}

/// Relies on `build_html::HtmlPage::with_meta`: appends `<meta ...>` with
/// the given attributes to the head.
#[verifier::external_body]
pub(crate) fn hp_with_meta(p: build_html::HtmlPage, pairs: &Vec<(String, String)>) -> (r:
    build_html::HtmlPage)
    ensures
        hp_head(r) == hp_head(p) + meta_html(attr_views(pairs@)),
        hp_body(r) == hp_body(p),
{
    p.with_meta(pairs.clone())
}

/// Relies on `build_html::HtmlPage::with_stylesheet`: appends
/// `<link href="..." rel="stylesheet">` to the head.
#[verifier::external_body]
pub(crate) fn hp_with_stylesheet(p: build_html::HtmlPage, source: &str) -> (r:
    build_html::HtmlPage)
    ensures
        hp_head(r) == hp_head(p) + head_link_html(source@, "stylesheet"@, Seq::empty()),
        hp_body(r) == hp_body(p),
{
    p.with_stylesheet(source)
}

/// Relies on `build_html::HtmlPage::with_head_link`: appends
/// `<link href="..." rel="...">` to the head.
#[verifier::external_body]
pub(crate) fn hp_with_head_link(p: build_html::HtmlPage, href: &str, rel: &str) -> (r:
    build_html::HtmlPage)
    ensures
        hp_head(r) == hp_head(p) + head_link_html(href@, rel@, Seq::empty()),
        hp_body(r) == hp_body(p),
{
    p.with_head_link(href, rel)
}

/// Relies on `build_html::HtmlPage::with_head_link_attr`: appends
/// `<link href="..." rel="..." ...>` with the extra attributes to the head.
#[verifier::external_body]
pub(crate) fn hp_with_head_link_attr(
    p: build_html::HtmlPage,
    href: &str,
    rel: &str,
    pairs: &Vec<(String, String)>,
) -> (r: build_html::HtmlPage)
    ensures
        hp_head(r) == hp_head(p) + head_link_html(href@, rel@, attr_views(pairs@)),
        hp_body(r) == hp_body(p),
{
    p.with_head_link_attr(href, rel, pairs.clone())
}

/// Relies on `build_html::HtmlPage::with_container` (through
/// `HtmlContainer::add_html`): appends the container's rendered HTML to the
/// body.
#[verifier::external_body]
pub(crate) fn hp_with_container(p: build_html::HtmlPage, c: build_html::Container) -> (r:
    build_html::HtmlPage)
    ensures
        hp_head(r) == hp_head(p),
        hp_body(r) == hp_body(p) + container_html(ct_tag(c), ct_attrs(c), ct_children(c)),
{
    p.with_container(c)
}

/// Relies on `build_html::Html::to_html_string` for `HtmlPage`: the
/// doctype, and the head and body strings in their sections.
#[verifier::external_body]
pub(crate) fn hp_to_html_string(p: &build_html::HtmlPage) -> (r: String)
    ensures
        r@ == page_html(hp_head(*p), hp_body(*p)),
{
    p.to_html_string()
}

/// Relies on `build_html::Container::new` with `ContainerType::Nav`.
#[verifier::external_body]
pub(crate) fn ct_new_nav() -> (r: build_html::Container)
    ensures
        ct_tag(r) == "nav"@,
        ct_attrs(r) == Seq::<(Seq<char>, Seq<char>)>::empty(),
        ct_children(r) == Seq::<Seq<char>>::empty(),
{
    build_html::Container::new(build_html::ContainerType::Nav)
}

/// Relies on `build_html::Container::new` with `ContainerType::Div`.
#[verifier::external_body]
pub(crate) fn ct_new_div() -> (r: build_html::Container)
    ensures
        ct_tag(r) == "div"@,
        ct_attrs(r) == Seq::<(Seq<char>, Seq<char>)>::empty(),
        ct_children(r) == Seq::<Seq<char>>::empty(),
{
    build_html::Container::new(build_html::ContainerType::Div)
}

/// Relies on `build_html::Container::new` with
/// `ContainerType::UnorderedList`.
#[verifier::external_body]
pub(crate) fn ct_new_ul() -> (r: build_html::Container)
    ensures
        ct_tag(r) == "ul"@,
        ct_attrs(r) == Seq::<(Seq<char>, Seq<char>)>::empty(),
        ct_children(r) == Seq::<Seq<char>>::empty(),
{
    build_html::Container::new(build_html::ContainerType::UnorderedList)
}

/// Relies on `build_html::Container::new` with `ContainerType::Main`.
#[verifier::external_body]
pub(crate) fn ct_new_main() -> (r: build_html::Container)
    ensures
        ct_tag(r) == "main"@,
        ct_attrs(r) == Seq::<(Seq<char>, Seq<char>)>::empty(),
        ct_children(r) == Seq::<Seq<char>>::empty(),
{
    build_html::Container::new(build_html::ContainerType::Main)
}

/// Relies on `build_html::Container::new` with `ContainerType::Footer`.
#[verifier::external_body]
pub(crate) fn ct_new_footer() -> (r: build_html::Container)
    ensures
        ct_tag(r) == "footer"@,
        ct_attrs(r) == Seq::<(Seq<char>, Seq<char>)>::empty(),
        ct_children(r) == Seq::<Seq<char>>::empty(),
{
    build_html::Container::new(build_html::ContainerType::Footer)
}

/// Relies on `build_html::Container::with_attributes`: appends the pairs to
/// the container's attribute list.
#[verifier::external_body]
pub(crate) fn ct_with_attributes(c: build_html::Container, pairs: &Vec<(String, String)>) -> (r:
    build_html::Container)
    ensures
        ct_tag(r) == ct_tag(c),
        ct_attrs(r) == ct_attrs(c) + attr_views(pairs@),
        ct_children(r) == ct_children(c),
{
    c.with_attributes(pairs.clone())
}

/// Relies on `build_html::HtmlContainer::with_raw`: appends the text as a
/// child, wrapped in `<li>` for list containers.
#[verifier::external_body]
pub(crate) fn ct_with_raw(c: build_html::Container, content: &str) -> (r: build_html::Container)
    ensures
        ct_tag(r) == ct_tag(c),
        ct_attrs(r) == ct_attrs(c),
        ct_children(r) == ct_children(c).push(li_wrap(ct_tag(c), content@)),
{
    c.with_raw(content)
}

/// Relies on `build_html::HtmlContainer::with_link`: appends an `<a>`
/// element as a child, wrapped in `<li>` for list containers.
#[verifier::external_body]
pub(crate) fn ct_with_link(c: build_html::Container, href: &str, text: &str) -> (r:
    build_html::Container)
    ensures
        ct_tag(r) == ct_tag(c),
        ct_attrs(r) == ct_attrs(c),
        ct_children(r) == ct_children(c).push(
            li_wrap(ct_tag(c), link_html(href@, text@, Seq::empty())),
        ),
{
    c.with_link(href, text)
}

/// Relies on `build_html::HtmlContainer::with_link_attr`: appends an `<a>`
/// element with extra attributes as a child, wrapped in `<li>` for list
/// containers.
#[verifier::external_body]
pub(crate) fn ct_with_link_attr(
    c: build_html::Container,
    href: &str,
    text: &str,
    pairs: &Vec<(String, String)>,
) -> (r: build_html::Container)
    ensures
        ct_tag(r) == ct_tag(c),
        ct_attrs(r) == ct_attrs(c),
        ct_children(r) == ct_children(c).push(
            li_wrap(ct_tag(c), link_html(href@, text@, attr_views(pairs@))),
        ),
{
    c.with_link_attr(href, text, pairs.clone())
}

/// Relies on `build_html::HtmlContainer::with_container` (also reached as
/// `with_html` on a container argument): appends the inner container's
/// rendered HTML as a child, wrapped in `<li>` for list containers.
#[verifier::external_body]
pub(crate) fn ct_with_container(c: build_html::Container, inner: build_html::Container) -> (r:
    build_html::Container)
    ensures
        ct_tag(r) == ct_tag(c),
        ct_attrs(r) == ct_attrs(c),
        ct_children(r) == ct_children(c).push(
            li_wrap(
                ct_tag(c),
                container_html(ct_tag(inner), ct_attrs(inner), ct_children(inner)),
            ),
        ),
{
    c.with_container(inner)
}

/// Relies on `build_html::Html::to_html_string` for `Container`.
#[verifier::external_body]
pub(crate) fn ct_to_html_string(c: &build_html::Container) -> (r: String)
    ensures
        r@ == container_html(ct_tag(*c), ct_attrs(*c), ct_children(*c)),
{
    c.to_html_string()
}

} // verus!
