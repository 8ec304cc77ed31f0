//! Messages that are sent as HTML, with their text for those who show none.

use scraper::node::Node;
use scraper::Html;
use vstd::prelude::*;

verus! {

/// The number of characters that a fragment of HTML may have at most. The
/// parser holds texts of fewer than 2^31 bytes, and a character is four bytes
/// at most.
pub const LONGEST_HTML: usize = 0x1fff_ffff;

/// The nodes that `scraper` parses a fragment of HTML to, in the order in
/// which it inserts them into its tree: the text of a text node, `None` for a
/// node of another kind.
pub uninterp spec fn fragment_nodes(html: Seq<char>) -> Seq<Option<Seq<char>>>;

/// The text of a node.
pub open spec fn node_view(node: Option<String>) -> Option<Seq<char>> {
    match node {
        Some(text) => Some(text@),
        None => None,
    }
}

/// The texts of some nodes.
pub open spec fn nodes_view(nodes: Seq<Option<String>>) -> Seq<Option<Seq<char>>> {
    nodes.map_values(|node: Option<String>| node_view(node))
}

/// Whether a text means itself as HTML: it has no markup, no character
/// reference, nothing that is dropped or replaced on the way in, and does not
/// begin with a byte order mark.
pub open spec fn is_plain(html: Seq<char>) -> bool {
    &&& forall|i: int|
        0 <= i < html.len() ==> !(#[trigger] html[i] == '<' || html[i] == '&' || html[i] == '\0'
            || html[i] == '\r')
    &&& html.len() > 0 ==> html[0] != '\u{feff}'
}

/// A text in bold.
pub open spec fn bold(text: Seq<char>) -> Seq<char> {
    "<b>"@ + text + "</b>"@
}

/// `Html::parse_fragment` of `scraper`, and the values of the tree that it
/// fills: for every node its text, where it is a text node. The result depends
/// on the text alone, and has a name here. A text that means itself is the text
/// of the nodes, also where it is put in bold; how other HTML is parsed is left
/// unsaid. (The parser panics where a text is too long for it to hold.)
#[verifier::external_body]
fn parse_fragment(html: &str) -> (nodes: Vec<Option<String>>)
    requires
        html@.len() <= LONGEST_HTML,
    ensures
        nodes_view(nodes@) == fragment_nodes(html@),
        is_plain(html@) ==> joined_text(nodes_view(nodes@)) == html@,
        forall|text: Seq<char>| #[trigger]
            bold(text) == html@ && is_plain(text) ==> joined_text(nodes_view(nodes@)) == text,
{
    Html::parse_fragment(html).tree.into_iter().map(|node| match node {
        Node::Text(text) => Some(text.text.to_string()),
        Node::Document => None,
        Node::Fragment => None,
        Node::Doctype(_) => None,
        Node::Comment(_) => None,
        Node::Element(_) => None,
        Node::ProcessingInstruction(_) => None,
    }).collect()
}

/// The text nodes, put together.
pub open spec fn joined_text(nodes: Seq<Option<Seq<char>>>) -> Seq<char>
    decreases nodes.len(),
{
    if nodes.len() == 0 {
        Seq::empty()
    } else {
        joined_text(nodes.drop_last()) + match nodes.last() {
            Some(text) => text,
            None => Seq::empty(),
        }
    }
}

/// What is left of a fragment of HTML without its markup.
pub open spec fn stripped(html: Seq<char>) -> Seq<char> {
    joined_text(fragment_nodes(html))
}

/// Puts the text nodes together.
pub fn join_text(nodes: &Vec<Option<String>>) -> (out: String)
    ensures
        out@ == joined_text(nodes_view(nodes@)),
{
    let mut out: String = String::new();
    let mut i: usize = 0;
    let ghost all = nodes_view(nodes@);
    while i < nodes.len()
        invariant
            i <= nodes.len(),
            all == nodes_view(nodes@),
            out@ == joined_text(all.take(i as int)),
        decreases nodes.len() - i,
    {
        assert(all.take(i + 1).drop_last() == all.take(i as int));
        assert(all.take(i + 1).last() == node_view(nodes@[i as int]));
        match &nodes[i] {
            Some(text) => {
                out.append(text.as_str());
            },
            None => {
                assert(out@ + Seq::<char>::empty() =~= out@);
            },
        }
        i = i + 1;
    }
    assert(all.take(i as int) == all);
    out
}

/// A message that can be made of HTML alone.
pub trait HtmlContentOnce: Sized {
    /// The text for those who show no HTML.
    spec fn plain_text(&self) -> Seq<char>;

    /// The HTML.
    spec fn html_text(&self) -> Seq<char>;

    /// The message of some HTML, with the text that is left of it without its
    /// markup. A text that means itself is its own.
    fn text_html_auto(txt: &str) -> (content: Self)
        requires
            txt@.len() <= LONGEST_HTML,
        ensures
            content.plain_text() == stripped(txt@),
            content.html_text() == txt@,
            is_plain(txt@) ==> content.plain_text() == txt@,
    ;

    /// The text that is left of some HTML without its markup. A text that means
    /// itself is left as it is, and so it is where it was put in bold.
    fn strip(txt: &str) -> (out: String)
        requires
            txt@.len() <= LONGEST_HTML,
        ensures
            out@ == stripped(txt@),
            is_plain(txt@) ==> out@ == txt@,
            forall|text: Seq<char>| #[trigger]
                bold(text) == txt@ && is_plain(text) ==> out@ == text,
    {
        join_text(&parse_fragment(txt))
    }
}

/// A message in both of its forms.
#[derive(Debug, PartialEq, Eq)]
pub struct HtmlMessage {
    pub plain: String,
    pub html: String,
}

impl HtmlContentOnce for HtmlMessage {
    open spec fn plain_text(&self) -> Seq<char> {
        self.plain@
    }

    open spec fn html_text(&self) -> Seq<char> {
        self.html@
    }

    fn text_html_auto(txt: &str) -> (content: Self) {
        HtmlMessage { plain: Self::strip(txt), html: txt.to_owned() }
    }
}

/// The text of nodes that follow one another is that of the first and then
/// that of the others: nothing depends on where the nodes are cut.
pub proof fn law_text_is_joined_in_order(a: Seq<Option<Seq<char>>>, b: Seq<Option<Seq<char>>>)
    ensures
        joined_text(a + b) == joined_text(a) + joined_text(b),
    decreases b.len(),
{
    if b.len() == 0 {
        assert(a + b =~= a);
        assert(joined_text(a) + joined_text(b) =~= joined_text(a));
    } else {
        law_text_is_joined_in_order(a, b.drop_last());
        assert((a + b).drop_last() =~= a + b.drop_last());
        assert(joined_text(a + b) =~= joined_text(a) + joined_text(b));
    }
}

/// Markup leaves no trace: nodes of which none is text have no text.
pub proof fn law_markup_has_no_text(nodes: Seq<Option<Seq<char>>>)
    requires
        forall|i: int| 0 <= i < nodes.len() ==> (#[trigger] nodes[i]) is None,
    ensures
        joined_text(nodes) == Seq::<char>::empty(),
    decreases nodes.len(),
{
    if nodes.len() > 0 {
        assert(nodes.last() is None);
        assert forall|i: int| 0 <= i < nodes.drop_last().len() implies (
        #[trigger] nodes.drop_last()[i]) is None by {
            assert(nodes.drop_last()[i] == nodes[i]);
        }
        law_markup_has_no_text(nodes.drop_last());
        assert(joined_text(nodes) =~= Seq::<char>::empty());
    }
}

/// The text of a single text node is that text, whatever its characters.
pub proof fn law_text_of_a_node_is_kept(text: Seq<char>)
    ensures
        joined_text(seq![Some(text)]) == text,
{
    let before = seq![Some(text)].drop_last();
    assert(before.len() == 0);
    assert(joined_text(before) == Seq::<char>::empty());
    assert(Seq::<char>::empty() + text =~= text);
}

/// Whatever the nodes that HTML is parsed to, the text of each of them is in
/// the text that is left, between that of the nodes before and that of the
/// nodes behind it.
pub proof fn law_strip_keeps_every_text(
    html: Seq<char>,
    a: Seq<Option<Seq<char>>>,
    text: Seq<char>,
    b: Seq<Option<Seq<char>>>,
)
    requires
        fragment_nodes(html) == a.push(Some(text)) + b,
    ensures
        stripped(html) == joined_text(a) + text + joined_text(b),
{
    assert(a.push(Some(text)) =~= a + seq![Some(text)]);
    law_text_is_joined_in_order(a.push(Some(text)), b);
    law_text_is_joined_in_order(a, seq![Some(text)]);
    law_text_of_a_node_is_kept(text);
}

/// Nothing is left of HTML that is parsed to nodes without text.
pub proof fn law_strip_adds_nothing(html: Seq<char>)
    requires
        forall|i: int|
            0 <= i < fragment_nodes(html).len() ==> (#[trigger] fragment_nodes(html)[i]) is None,
    ensures
        stripped(html) == Seq::<char>::empty(),
{
    law_markup_has_no_text(fragment_nodes(html));
}

/// The texts of some nodes are theirs, each at its place.
pub proof fn law_nodes_show_their_texts(nodes: Seq<Option<String>>, i: int)
    requires
        0 <= i < nodes.len(),
    ensures
        nodes_view(nodes).len() == nodes.len(),
        nodes_view(nodes)[i] is Some <==> nodes[i] is Some,
        nodes[i] matches Some(text) ==> nodes_view(nodes)[i] == Some(text@),
{
}

/// The two forms of a message are the two texts that it holds.
pub proof fn law_a_message_shows_both_forms(message: HtmlMessage)
    ensures
        message.plain_text() == message.plain@,
        message.html_text() == message.html@,
{
}

/// A text means itself as HTML unless it holds `<`, `&`, a null character or a
/// carriage return, or begins with a byte order mark.
pub proof fn law_what_means_itself(html: Seq<char>)
    ensures
        is_plain(html) <==> !html.contains('<') && !html.contains('&') && !html.contains('\0')
            && !html.contains('\r') && (html.len() > 0 ==> html[0] != '\u{feff}'),
{
    if is_plain(html) {
        assert forall|c: char| c == '<' || c == '&' || c == '\0' || c == '\r' implies
            !#[trigger] html.contains(c) by {
            if html.contains(c) {
                let i = choose|i: int| 0 <= i < html.len() && html[i] == c;
                assert(html[i] == c);
            }
        }
    } else if html.len() == 0 || html[0] != '\u{feff}' {
        let i = choose|i: int|
            0 <= i < html.len() && (#[trigger] html[i] == '<' || html[i] == '&' || html[i] == '\0'
                || html[i] == '\r');
        assert(html.contains(html[i]));
    }
}

} // verus!
