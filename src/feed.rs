//! The feed parser: from the text of a syndication document to the
//! candidate item URLs of its entries.

use vstd::prelude::*;
use crate::string_set::strings_view;
use crate::text::{
    blank, chars_of, is_blank, lemma_trim_blank, opt_chars, opt_string_is, string_is, string_of,
    trim, trim_chars,
};

verus! {

#[verifier::external_type_specification]
#[verifier::external_body]
pub struct ExXmlError(roxmltree::Error);

/// Whether `roxmltree::Document::parse` accepts the text.
pub uninterp spec fn xml_accepts(s: Seq<char>) -> bool;

/// The local tag name (`ExpandedName::name`) of each node of the parsed
/// document, in document order; empty for nodes that are not elements.
pub uninterp spec fn xml_tag_names(s: Seq<char>) -> Seq<Seq<char>>;

/// The tag namespace (`ExpandedName::namespace`) of each node, in document order.
pub uninterp spec fn xml_tag_namespaces(s: Seq<char>) -> Seq<Option<Seq<char>>>;

/// What `Node::text` gives for each node, in document order.
pub uninterp spec fn xml_texts(s: Seq<char>) -> Seq<Option<Seq<char>>>;

/// The attributes (`Node::attributes`) of each node, as namespace, name and
/// value, in document order.
pub uninterp spec fn xml_attributes(s: Seq<char>) -> Seq<
    Seq<(Option<Seq<char>>, Seq<char>, Seq<char>)>,
>;

/// The document-order index (`Node::parent`, then `NodeId::get_usize`) of
/// the parent of each node.
pub uninterp spec fn xml_parents(s: Seq<char>) -> Seq<Option<usize>>;

/// One node of a parsed document, copied out as plain values.
pub struct XmlNode {
    pub name: String,
    pub namespace: Option<String>,
    pub text: Option<String>,
    pub attributes: Vec<(Option<String>, String, String)>,
    pub parent: Option<usize>,
}

pub open spec fn attrs_view(a: Seq<(Option<String>, String, String)>) -> Seq<
    (Option<Seq<char>>, Seq<char>, Seq<char>),
> {
    a.map_values(|t: (Option<String>, String, String)| (opt_chars(t.0), t.1@, t.2@))
}

/// Relies on `roxmltree::Document::parse` and, for each node that
/// `Document::descendants` yields in document order, on its tag name,
/// text, attributes and parent, copied out as plain values.
#[verifier::external_body]
fn parse_xml(text: &str) -> (r: Result<Vec<XmlNode>, roxmltree::Error>)
    ensures
        r is Ok <==> xml_accepts(text@),
        r matches Ok(nodes) ==> {
            &&& nodes@.map_values(|n: XmlNode| n.name@) == xml_tag_names(text@)
            &&& nodes@.map_values(|n: XmlNode| opt_chars(n.namespace)) == xml_tag_namespaces(text@)
            &&& nodes@.map_values(|n: XmlNode| opt_chars(n.text)) == xml_texts(text@)
            &&& nodes@.map_values(|n: XmlNode| attrs_view(n.attributes@)) == xml_attributes(text@)
            &&& nodes@.map_values(|n: XmlNode| n.parent) == xml_parents(text@)
        },
{
    let doc = roxmltree::Document::parse(text)?;
    let nodes = doc.descendants().map(|n| XmlNode {
        name: n.tag_name().name().to_string(),
        namespace: n.tag_name().namespace().map(String::from),
        text: n.text().map(String::from),
        attributes: n.attributes().map(|a| (a.namespace().map(String::from), a.name().to_string(), a.value().to_string())).collect(),
        parent: n.parent().map(|p| p.id().get_usize()),
    });
    Ok(nodes.collect())
}


/// What the feed logic reads of one node.
pub ghost struct NodeView {
    pub name: Seq<char>,
    pub namespace: Option<Seq<char>>,
    pub text: Option<Seq<char>>,
    pub attributes: Seq<(Option<Seq<char>>, Seq<char>, Seq<char>)>,
    pub parent: Option<usize>,
}

impl View for XmlNode {
    type V = NodeView;

    open spec fn view(&self) -> NodeView {
        NodeView {
            name: self.name@,
            namespace: opt_chars(self.namespace),
            text: opt_chars(self.text),
            attributes: attrs_view(self.attributes@),
            parent: self.parent,
        }
    }
}

pub open spec fn nodes_view(nodes: Seq<XmlNode>) -> Seq<NodeView> {
    nodes.map_values(|n: XmlNode| n@)
}

/// The nodes of the document parsed from `s`, in document order.
pub open spec fn document_of(s: Seq<char>) -> Seq<NodeView> {
    Seq::new(
        xml_tag_names(s).len(),
        |i: int|
            NodeView {
                name: xml_tag_names(s)[i],
                namespace: xml_tag_namespaces(s)[i],
                text: xml_texts(s)[i],
                attributes: xml_attributes(s)[i],
                parent: xml_parents(s)[i],
            },
    )
}

pub open spec fn atom_ns() -> Seq<char> {
    "http://www.w3.org/2005/Atom"@
}

pub open spec fn media_ns() -> Seq<char> {
    "http://www.youtube.com/xml/schemas/2015"@
}

/// The start of the canonical watch URL made from an identifier.
pub open spec fn watch_prefix() -> Seq<char> {
    "https://www.youtube.com/watch?v="@
}

/// The value of the first attribute without namespace named `key`.
pub open spec fn attr_value(attrs: Seq<(Option<Seq<char>>, Seq<char>, Seq<char>)>, key: Seq<char>) -> Option<
    Seq<char>,
>
    decreases attrs.len(),
{
    if attrs.len() == 0 {
        None
    } else if attrs[0].0 is None && attrs[0].1 == key {
        Some(attrs[0].2)
    } else {
        attr_value(attrs.drop_first(), key)
    }
}

pub open spec fn has_tag(n: NodeView, name: Seq<char>, ns: Seq<char>) -> bool {
    n.name == name && n.namespace == Some(ns)
}

pub open spec fn is_entry(n: NodeView) -> bool {
    has_tag(n, "entry"@, atom_ns())
}

/// The two kinds of element that an entry's URL is taken from.
pub enum Target {
    VideoId,
    AlternateLink,
}

pub open spec fn selects(t: Target, n: NodeView) -> bool {
    match t {
        Target::VideoId => has_tag(n, "videoId"@, media_ns()),
        Target::AlternateLink => has_tag(n, "link"@, atom_ns()) && attr_value(
            n.attributes,
            "rel"@,
        ) == Some("alternate"@),
    }
}

/// Node `j` is `e` or lies below it, found within `fuel` steps up the parent chain.
pub open spec fn reaches(nodes: Seq<NodeView>, j: int, e: int, fuel: nat) -> bool
    decreases fuel,
{
    j == e || (fuel > 0 && 0 <= j < nodes.len() && nodes[j].parent is Some && reaches(
        nodes,
        nodes[j].parent->0 as int,
        e,
        (fuel - 1) as nat,
    ))
}

/// Node `j` is node `e` or one of its descendants.
pub open spec fn in_subtree(nodes: Seq<NodeView>, j: int, e: int) -> bool {
    reaches(nodes, j, e, nodes.len())
}

/// The first node at or after `k`, in document order, that lies in the
/// subtree of `e` and is of kind `t`.
pub open spec fn first_from(nodes: Seq<NodeView>, e: int, k: int, t: Target) -> Option<int>
    decreases nodes.len() - k,
{
    if k < 0 || k >= nodes.len() {
        None
    } else if in_subtree(nodes, k, e) && selects(t, nodes[k]) {
        Some(k)
    } else {
        first_from(nodes, e, k + 1, t)
    }
}

/// The first node of kind `t` among `e` and its descendants.
pub open spec fn first_in(nodes: Seq<NodeView>, e: int, t: Target) -> Option<int> {
    first_from(nodes, e, e, t)
}

pub open spec fn text_or_empty(n: NodeView) -> Seq<char> {
    match n.text {
        Some(t) => t,
        None => Seq::empty(),
    }
}

/// The URL made from the entry's video identifier element, if its trimmed
/// text is not empty.
pub open spec fn url_by_video_id(nodes: Seq<NodeView>, e: int) -> Option<Seq<char>> {
    match first_in(nodes, e, Target::VideoId) {
        Some(v) => {
            let t = trim(text_or_empty(nodes[v]));
            if t.len() > 0 {
                Some(watch_prefix() + t)
            } else {
                None
            }
        },
        None => None,
    }
}

/// The `href` of the entry's alternate link, if it is not blank.
pub open spec fn url_by_link(nodes: Seq<NodeView>, e: int) -> Option<Seq<char>> {
    match first_in(nodes, e, Target::AlternateLink) {
        Some(l) => match attr_value(nodes[l].attributes, "href"@) {
            Some(h) => if blank(h) {
                None
            } else {
                Some(h)
            },
            None => None,
        },
        None => None,
    }
}

/// The candidate URL of the entry at `e`: the first strategy that yields one wins.
pub open spec fn entry_url(nodes: Seq<NodeView>, e: int) -> Option<Seq<char>> {
    match url_by_video_id(nodes, e) {
        Some(u) => Some(u),
        None => url_by_link(nodes, e),
    }
}

/// The candidate URLs of the entries at or after node `k`, in document order.
pub open spec fn urls_from(nodes: Seq<NodeView>, k: int) -> Seq<Seq<char>>
    decreases nodes.len() - k,
{
    if k < 0 || k >= nodes.len() {
        Seq::empty()
    } else {
        let here = if is_entry(nodes[k]) && entry_url(nodes, k) is Some {
            seq![entry_url(nodes, k)->0]
        } else {
            Seq::empty()
        };
        here + urls_from(nodes, k + 1)
    }
}

/// The candidate URLs of a document's entries, in document order.
pub open spec fn feed_urls(nodes: Seq<NodeView>) -> Seq<Seq<char>> {
    urls_from(nodes, 0)
}


/// Whether node `j` is node `e` or one of its descendants.
fn is_in_subtree(nodes: &Vec<XmlNode>, j: usize, e: usize) -> (r: bool)
    ensures
        r == in_subtree(nodes_view(nodes@), j as int, e as int),
{
    let ghost view = nodes_view(nodes@);
    let mut cur: usize = j;
    let mut fuel: usize = nodes.len();
    loop
        invariant
            view == nodes_view(nodes@),
            view.len() == nodes@.len(),
            fuel <= nodes@.len(),
            in_subtree(view, j as int, e as int) == reaches(view, cur as int, e as int, fuel as nat),
        decreases fuel,
    {
        if cur == e {
            return true;
        }
        if fuel == 0 || cur >= nodes.len() {
            return false;
        }
        assert(view[cur as int] == nodes@[cur as int]@);
        match nodes[cur].parent {
            None => {
                return false;
            },
            Some(p) => {
                cur = p;
                fuel = fuel - 1;
            },
        }
    }
}

/// The value of the first attribute without namespace named `key`.
fn attribute_of(attrs: &Vec<(Option<String>, String, String)>, key: &Vec<char>) -> (r: Option<String>)
    ensures
        opt_chars(r) == attr_value(attrs_view(attrs@), key@),
{
    let ghost all = attrs_view(attrs@);
    proof {
        assert(all.subrange(0, all.len() as int) =~= all);
    }
    let mut i: usize = 0;
    while i < attrs.len()
        invariant
            i <= attrs@.len(),
            all == attrs_view(attrs@),
            attr_value(all, key@) == attr_value(all.subrange(i as int, all.len() as int), key@),
        decreases attrs@.len() - i,
    {
        proof {
            let rest = all.subrange(i as int, all.len() as int);
            assert(rest[0] == all[i as int]);
            assert(rest.drop_first() =~= all.subrange(i + 1, all.len() as int));
        }
        if attrs[i].0.is_none() && string_is(&attrs[i].1, key) {
            return Some(attrs[i].2.clone());
        }
        i = i + 1;
    }
    proof {
        assert(all.subrange(i as int, all.len() as int).len() == 0);
    }
    None
}

fn has_tag_exec(n: &XmlNode, name: &str, ns: &str) -> (r: bool)
    ensures
        r == has_tag(n@, name@, ns@),
{
    string_is(&n.name, &chars_of(name)) && opt_string_is(&n.namespace, &chars_of(ns))
}

fn is_entry_exec(n: &XmlNode) -> (r: bool)
    ensures
        r == is_entry(n@),
{
    has_tag_exec(n, "entry", "http://www.w3.org/2005/Atom")
}

fn selects_exec(t: &Target, n: &XmlNode) -> (r: bool)
    ensures
        r == selects(*t, n@),
{
    match t {
        Target::VideoId => has_tag_exec(n, "videoId", "http://www.youtube.com/xml/schemas/2015"),
        Target::AlternateLink => {
            if !has_tag_exec(n, "link", "http://www.w3.org/2005/Atom") {
                return false;
            }
            let rel = attribute_of(&n.attributes, &chars_of("rel"));
            opt_string_is(&rel, &chars_of("alternate"))
        },
    }
}

/// The first node of kind `t` among `e` and its descendants, in document order.
pub fn find_in_entry(nodes: &Vec<XmlNode>, e: usize, t: &Target) -> (r: Option<usize>)
    ensures
        match r {
            Some(k) => first_in(nodes_view(nodes@), e as int, *t) == Some(k as int) && k < nodes@.len(),
            None => first_in(nodes_view(nodes@), e as int, *t) is None,
        },
{
    let ghost view = nodes_view(nodes@);
    let mut k: usize = e;
    while k < nodes.len()
        invariant
            view == nodes_view(nodes@),
            view.len() == nodes@.len(),
            e <= k,
            first_in(view, e as int, *t) == first_from(view, e as int, k as int, *t),
        decreases nodes@.len() - k,
    {
        assert(view[k as int] == nodes@[k as int]@);
        if is_in_subtree(nodes, k, e) && selects_exec(t, &nodes[k]) {
            return Some(k);
        }
        k = k + 1;
    }
    None
}

/// The candidate URL of the entry at node `e`: the canonical watch URL of
/// its video identifier element, else the `href` of its alternate link.
pub fn entry_url_at(nodes: &Vec<XmlNode>, e: usize) -> (r: Option<String>)
    ensures
        opt_chars(r) == entry_url(nodes_view(nodes@), e as int),
{
    let ghost view = nodes_view(nodes@);
    if let Some(v) = find_in_entry(nodes, e, &Target::VideoId) {
        assert(view[v as int] == nodes@[v as int]@);
        let t = match &nodes[v].text {
            Some(s) => trim_chars(&chars_of(s.as_str())),
            None => Vec::new(),
        };
        proof {
            if nodes@[v as int].text is None {
                assert(t@ =~= trim(Seq::empty()));
            }
        }
        if t.len() > 0 {
            let mut u = chars_of("https://www.youtube.com/watch?v=");
            let mut tail = t;
            u.append(&mut tail);
            return Some(string_of(&u));
        }
    }
    if let Some(l) = find_in_entry(nodes, e, &Target::AlternateLink) {
        assert(view[l as int] == nodes@[l as int]@);
        if let Some(h) = attribute_of(&nodes[l].attributes, &chars_of("href")) {
            if !is_blank(&chars_of(h.as_str())) {
                return Some(h);
            }
        }
    }
    None
}

/// The candidate URLs of a document's entries, in document order.
pub fn entry_urls(nodes: &Vec<XmlNode>) -> (r: Vec<String>)
    ensures
        strings_view(r@) == feed_urls(nodes_view(nodes@)),
{
    let ghost view = nodes_view(nodes@);
    let mut r: Vec<String> = Vec::new();
    let mut k: usize = 0;
    while k < nodes.len()
        invariant
            view == nodes_view(nodes@),
            view.len() == nodes@.len(),
            k <= nodes@.len(),
            feed_urls(view) == strings_view(r@) + urls_from(view, k as int),
        decreases nodes@.len() - k,
    {
        assert(view[k as int] == nodes@[k as int]@);
        let ghost before = r@;
        if is_entry_exec(&nodes[k]) {
            if let Some(u) = entry_url_at(nodes, k) {
                r.push(u);
            }
        }
        proof {
            assert(strings_view(r@) + urls_from(view, k + 1) =~= strings_view(before) + urls_from(
                view,
                k as int,
            ));
        }
        k = k + 1;
    }
    proof {
        assert(urls_from(view, k as int) =~= Seq::empty());
        assert(strings_view(r@) + Seq::empty() =~= strings_view(r@));
    }
    r
}


/// Why a feed document yielded no candidates.
pub enum FeedError {
    /// The text is not a well-formed XML document.
    Malformed(roxmltree::Error),
}

/// The candidate URLs of the entries of the feed document `text`, in
/// document order; an error when the text does not parse as XML.
pub fn parse_feed(text: &str) -> (r: Result<Vec<String>, FeedError>)
    ensures
        r is Err <==> !xml_accepts(text@),
        r matches Ok(urls) ==> strings_view(urls@) == feed_urls(document_of(text@)),
{
    match parse_xml(text) {
        Ok(nodes) => {
            proof {
                let names = nodes@.map_values(|n: XmlNode| n.name@);
                assert(names.len() == nodes@.len());
                assert(nodes_view(nodes@) =~= document_of(text@)) by {
                    assert forall|i: int| 0 <= i < nodes@.len() implies #[trigger] nodes_view(
                        nodes@,
                    )[i] == document_of(text@)[i] by {
                        assert(names[i] == nodes@[i].name@);
                        assert(nodes@.map_values(|n: XmlNode| opt_chars(n.namespace))[i]
                            == opt_chars(nodes@[i].namespace));
                        assert(nodes@.map_values(|n: XmlNode| opt_chars(n.text))[i] == opt_chars(
                            nodes@[i].text,
                        ));
                        assert(nodes@.map_values(|n: XmlNode| attrs_view(n.attributes@))[i]
                            == attrs_view(nodes@[i].attributes@));
                        assert(nodes@.map_values(|n: XmlNode| n.parent)[i] == nodes@[i].parent);
                    }
                }
            }
            Ok(entry_urls(&nodes))
        },
        Err(e) => Err(FeedError::Malformed(e)),
    }
}


/// An entry whose video identifier element has blank text takes its URL
/// from its alternate link, as one without such an element does.
pub proof fn blank_identifier_falls_back_to_link(nodes: Seq<NodeView>, e: int)
    requires
        first_in(nodes, e, Target::VideoId) is None || blank(
            text_or_empty(nodes[first_in(nodes, e, Target::VideoId)->0]),
        ),
    ensures
        entry_url(nodes, e) == url_by_link(nodes, e),
{
    if let Some(v) = first_in(nodes, e, Target::VideoId) {
        lemma_trim_blank(text_or_empty(nodes[v]));
    }
}

} // verus!
