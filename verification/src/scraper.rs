use crate::error::{AppError, AppErrorView};
use crate::text::{
    drawn_from, is_normal, law_normalization_keeps_words, law_normalized_is_no_longer,
    law_normalized_is_normal, normalize_whitespace, normalized, option_view, word_count, words,
};
use vstd::prelude::*;
use vstd::string::StringSliceAdditionalSpecFns;
use vstd::utf8::encode_utf8;
use vstd::std_specs::iter::IteratorSpec;

verus! {

/// Where the markup scanner stands after it has read some text: inside a tag
/// that `<` opened, inside a character reference that `&` opened, both, or
/// neither.
pub struct ScanState {
    pub in_tag: bool,
    pub in_entity: bool,
}

/// The scanner's state after it has read all of `s`.
///
/// `<` opens a tag and `>` closes it; `&` opens a character reference and the
/// next `;` closes it. The two do not interrupt each other.
pub open spec fn scan_state(s: Seq<char>) -> ScanState
    decreases s.len(),
{
    if s.len() == 0 {
        ScanState { in_tag: false, in_entity: false }
    } else {
        let prev = scan_state(s.drop_last());
        let c = s.last();
        if c == '<' {
            ScanState { in_tag: true, in_entity: prev.in_entity }
        } else if c == '>' {
            ScanState { in_tag: false, in_entity: prev.in_entity }
        } else if c == '&' {
            ScanState { in_tag: prev.in_tag, in_entity: true }
        } else if c == ';' {
            ScanState { in_tag: prev.in_tag, in_entity: false }
        } else {
            prev
        }
    }
}

/// `s` without its tags and character references.
///
/// Every `>` and every `;` that closes a character reference leaves one
/// space behind, so that the words on its two sides stay apart. A character
/// outside tags and references is kept; everything else is dropped.
pub open spec fn without_markup(s: Seq<char>) -> Seq<char>
    decreases s.len(),
{
    if s.len() == 0 {
        Seq::empty()
    } else {
        let before = s.drop_last();
        let prev = scan_state(before);
        let c = s.last();
        if c == '>' || (c == ';' && prev.in_entity) {
            without_markup(before).push(' ')
        } else if c == '<' || c == '&' || prev.in_tag || prev.in_entity {
            without_markup(before)
        } else {
            without_markup(before).push(c)
        }
    }
}

/// The clean text of a piece of markup: its tags and character references
/// replaced by spaces, then its whitespace normalized.
pub open spec fn clean_text(html: Seq<char>) -> Seq<char> {
    normalized(without_markup(html))
}

/// No `<`, `>` or `&` is left once the markup is gone.
pub proof fn lemma_without_markup_has_no_delimiters(s: Seq<char>)
    ensures
        forall|i: int|
            0 <= i < without_markup(s).len() ==> {
                let c = #[trigger] without_markup(s)[i];
                c != '<' && c != '>' && c != '&'
            },
    decreases s.len(),
{
    if s.len() > 0 {
        let before = s.drop_last();
        lemma_without_markup_has_no_delimiters(before);
        assert forall|i: int| 0 <= i < without_markup(s).len() implies {
            let c = #[trigger] without_markup(s)[i];
            c != '<' && c != '>' && c != '&'
        } by {
            if i < without_markup(before).len() {
                assert(without_markup(s)[i] == without_markup(before)[i]);
            }
        }
    }
}

/// Clean text is free of markup and normalized: it holds no `<`, `>` or
/// `&`, no whitespace at its ends, and no whitespace but single spaces
/// between its words.
pub proof fn law_clean_text_is_plain(html: Seq<char>)
    ensures
        is_normal(clean_text(html)),
        forall|i: int|
            0 <= i < clean_text(html).len() ==> {
                let c = #[trigger] clean_text(html)[i];
                c != '<' && c != '>' && c != '&'
            },
{
    let stripped = without_markup(html);
    law_normalized_is_normal(stripped);
    lemma_without_markup_has_no_delimiters(html);
    assert forall|i: int| 0 <= i < clean_text(html).len() implies {
        let c = #[trigger] clean_text(html)[i];
        c != '<' && c != '>' && c != '&'
    } by {
        let c = clean_text(html)[i];
        assert(drawn_from(clean_text(html), stripped));
        if c != ' ' {
            assert(stripped.contains(c));
            let k = choose|k: int| 0 <= k < stripped.len() && stripped[k] == c;
            assert(without_markup(html)[k] == c);
        }
    }
}

/// Replaces every tag and character reference of `html` by one space.
pub fn strip_markup(html: &str) -> (out: String)
    ensures
        out@ == without_markup(html@),
{
    let mut out = String::new();
    let mut in_tag = false;
    let mut in_entity = false;
    for c in it: html.chars()
        invariant
            it.seq() == html@,
            out@ == without_markup(html@.take(it.index() as int)),
            scan_state(html@.take(it.index() as int)) == (ScanState { in_tag, in_entity }),
    {
        assert(html@.take(it.index() + 1).drop_last() == html@.take(it.index() as int));
        if c == '>' {
            in_tag = false;
            out.push(' ');
        } else if c == ';' && in_entity {
            in_entity = false;
            out.push(' ');
        } else {
            if c == '<' {
                in_tag = true;
            } else if c == '&' {
                in_entity = true;
            }
            if !in_tag && !in_entity {
                out.push(c);
            }
        }
    }
    assert(html@.take(html@.len() as int) == html@);
    out
}

/// Reduces a piece of markup to clean text: tags and character references
/// become spaces, runs of whitespace collapse to one space, and the ends are
/// trimmed.
pub fn clean_html_content(html: &str) -> (text: String)
    ensures
        text@ == clean_text(html@),
{
    let stripped = strip_markup(html);
    normalize_whitespace(stripped.as_str())
}

/// A node of a parsed piece of markup, as the noise removal sees it.
pub struct RegionNode {
    /// The number of nodes above the node.
    pub depth: usize,
    /// The node's text, where it is a text node.
    pub text: Option<String>,
    /// Whether the node is an element that the noise selector matches.
    pub noise: bool,
}

/// A `RegionNode` with its text as a sequence of characters.
pub struct RegionNodeView {
    pub depth: usize,
    pub text: Option<Seq<char>>,
    pub noise: bool,
}

impl View for RegionNode {
    type V = RegionNodeView;

    open spec fn view(&self) -> RegionNodeView {
        RegionNodeView { depth: self.depth, text: option_view(self.text), noise: self.noise }
    }
}

/// The nodes `nodes`, each by its view.
pub open spec fn nodes_view(nodes: Seq<RegionNode>) -> Seq<RegionNodeView> {
    nodes.map_values(|node: RegionNode| node@)
}

/// The depth of the outermost noise element that holds the last of the
/// nodes `nodes` or is that node, where there is one. The nodes stand in
/// document order, so that the nodes below a node are those that follow it
/// for as long as they are deeper than it.
pub open spec fn cut_after(nodes: Seq<RegionNodeView>) -> Option<usize>
    decreases nodes.len(),
{
    if nodes.len() == 0 {
        None
    } else {
        let node = nodes.last();
        let before = cut_after(nodes.drop_last());
        if before is Some && node.depth > before->Some_0 {
            before
        } else if node.noise {
            Some(node.depth)
        } else {
            None
        }
    }
}

/// The character `c` as markup writes it in a text: `&`, `<` and `>` as
/// character references, every other character as itself.
pub open spec fn written(c: char) -> Seq<char> {
    if c == '&' {
        "&amp;"@
    } else if c == '<' {
        "&lt;"@
    } else if c == '>' {
        "&gt;"@
    } else {
        seq![c]
    }
}

/// The text `s` as markup writes it.
pub open spec fn escaped(s: Seq<char>) -> Seq<char>
    decreases s.len(),
{
    if s.len() == 0 {
        Seq::empty()
    } else {
        escaped(s.drop_last()) + written(s.last())
    }
}

/// The markup of what is left of the nodes `nodes` once the noise is cut
/// out: the texts that stand neither in nor below a noise element, in
/// document order, each as markup writes it and after a space that stands
/// for the tags around it.
pub open spec fn visible_markup(nodes: Seq<RegionNodeView>) -> Seq<char>
    decreases nodes.len(),
{
    if nodes.len() == 0 {
        Seq::empty()
    } else {
        let before = visible_markup(nodes.drop_last());
        if cut_after(nodes) is None && nodes.last().text is Some {
            before + seq![' '] + escaped(nodes.last().text->Some_0)
        } else {
            before
        }
    }
}

/// The character that is left of `c` once it was written as markup and the
/// markup was taken away again: a space in place of `&`, `<` and `>`, whose
/// character references go; every other character itself.
pub open spec fn read_back(c: char) -> char {
    if c == '&' || c == '<' || c == '>' {
        ' '
    } else {
        c
    }
}

/// The texts that stand neither in nor below a noise element, in document
/// order, each after a space, with a space in place of each `&`, `<` and
/// `>`.
pub open spec fn visible_text(nodes: Seq<RegionNodeView>) -> Seq<char>
    decreases nodes.len(),
{
    if nodes.len() == 0 {
        Seq::empty()
    } else {
        let before = visible_text(nodes.drop_last());
        if cut_after(nodes) is None && nodes.last().text is Some {
            before + seq![' '] + nodes.last().text->Some_0.map_values(|c: char| read_back(c))
        } else {
            before
        }
    }
}

/// After a text that leaves the scanner outside tags and references, what
/// follows is scanned as if it stood alone.
proof fn lemma_scan_continues(a: Seq<char>, b: Seq<char>)
    requires
        scan_state(a) == (ScanState { in_tag: false, in_entity: false }),
    ensures
        scan_state(a + b) == scan_state(b),
        without_markup(a + b) == without_markup(a) + without_markup(b),
    decreases b.len(),
{
    if b.len() == 0 {
        assert(a + b == a);
        assert(without_markup(a) + without_markup(b) == without_markup(a));
    } else {
        lemma_scan_continues(a, b.drop_last());
        assert((a + b).drop_last() == a + b.drop_last());
        assert((a + b).last() == b.last());
        assert(without_markup(a) + without_markup(b.drop_last()).push(' ') == (without_markup(a)
            + without_markup(b.drop_last())).push(' '));
        assert(without_markup(a) + without_markup(b.drop_last()).push(b.last()) == (
        without_markup(a) + without_markup(b.drop_last())).push(b.last()));
    }
}

/// A character written as markup leaves the scanner outside tags and
/// references, and is read back as one character.
proof fn lemma_written_is_read_back(c: char)
    ensures
        scan_state(written(c)) == (ScanState { in_tag: false, in_entity: false }),
        without_markup(written(c)) == seq![read_back(c)],
{
    reveal_strlit("&amp;");
    reveal_strlit("&lt;");
    reveal_strlit("&gt;");
    let w = written(c);
    reveal_with_fuel(scan_state, 6);
    reveal_with_fuel(without_markup, 6);
    if c == '&' {
        assert(w == seq!['&', 'a', 'm', 'p', ';']);
        assert(w.drop_last() == seq!['&', 'a', 'm', 'p']);
        assert(w.drop_last().drop_last() == seq!['&', 'a', 'm']);
        assert(w.drop_last().drop_last().drop_last() == seq!['&', 'a']);
        assert(w.drop_last().drop_last().drop_last().drop_last() == seq!['&']);
        assert(w.drop_last().drop_last().drop_last().drop_last().drop_last() == Seq::<
            char,
        >::empty());
        assert(without_markup(w) == seq![' ']);
    } else if c == '<' {
        assert(w == seq!['&', 'l', 't', ';']);
        assert(w.drop_last() == seq!['&', 'l', 't']);
        assert(w.drop_last().drop_last() == seq!['&', 'l']);
        assert(w.drop_last().drop_last().drop_last() == seq!['&']);
        assert(w.drop_last().drop_last().drop_last().drop_last() == Seq::<char>::empty());
        assert(without_markup(w) == seq![' ']);
    } else if c == '>' {
        assert(w == seq!['&', 'g', 't', ';']);
        assert(w.drop_last() == seq!['&', 'g', 't']);
        assert(w.drop_last().drop_last() == seq!['&', 'g']);
        assert(w.drop_last().drop_last().drop_last() == seq!['&']);
        assert(w.drop_last().drop_last().drop_last().drop_last() == Seq::<char>::empty());
        assert(without_markup(w) == seq![' ']);
    } else {
        assert(w.drop_last() == Seq::<char>::empty());
        assert(without_markup(w) == seq![c]);
    }
}

/// A text written as markup leaves the scanner outside tags and references,
/// and is read back character by character.
proof fn lemma_escaped_is_read_back(s: Seq<char>)
    ensures
        scan_state(escaped(s)) == (ScanState { in_tag: false, in_entity: false }),
        without_markup(escaped(s)) == s.map_values(|c: char| read_back(c)),
    decreases s.len(),
{
    if s.len() == 0 {
        assert(without_markup(escaped(s)) =~= s.map_values(|c: char| read_back(c)));
    } else {
        let front = s.drop_last();
        lemma_escaped_is_read_back(front);
        lemma_written_is_read_back(s.last());
        lemma_scan_continues(escaped(front), written(s.last()));
        assert(front.map_values(|c: char| read_back(c)) + seq![read_back(s.last())]
            =~= s.map_values(|c: char| read_back(c)));
    }
}

/// The markup that is left once the noise is cut out holds no tag, and
/// taking its markup away gives the texts themselves.
proof fn lemma_visible_markup_is_read_back(nodes: Seq<RegionNodeView>)
    ensures
        scan_state(visible_markup(nodes)) == (ScanState { in_tag: false, in_entity: false }),
        without_markup(visible_markup(nodes)) == visible_text(nodes),
    decreases nodes.len(),
{
    if nodes.len() > 0 {
        lemma_visible_markup_is_read_back(nodes.drop_last());
        if cut_after(nodes) is None && nodes.last().text is Some {
            let before = visible_markup(nodes.drop_last());
            let text = nodes.last().text->Some_0;
            lemma_escaped_is_read_back(text);
            assert(scan_state(seq![' ']) == (ScanState { in_tag: false, in_entity: false })
                && without_markup(seq![' ']) == seq![' ']) by {
                reveal_with_fuel(scan_state, 2);
                reveal_with_fuel(without_markup, 2);
                assert(seq![' '].drop_last() == Seq::<char>::empty());
            }
            lemma_scan_continues(before, seq![' ']);
            lemma_scan_continues(before + seq![' '], escaped(text));
        }
    }
}

/// The clean text of a content region is made of the texts that stand
/// neither in nor below a noise element, and of nothing else: it is their
/// sequence, whitespace normalized.
pub proof fn law_clean_text_is_the_visible_text(nodes: Seq<RegionNodeView>)
    ensures
        clean_text(visible_markup(nodes)) == normalized(visible_text(nodes)),
{
    lemma_visible_markup_is_read_back(nodes);
}

/// Writes `text` at the end of `out` as markup writes it.
fn push_escaped(out: &mut String, text: &str)
    ensures
        final(out)@ == old(out)@ + escaped(text@),
{
    let ghost start = out@;
    for c in it: text.chars()
        invariant
            it.seq() == text@,
            out@ == start + escaped(text@.take(it.index() as int)),
    {
        proof {
            let before = text@.take(it.index() as int);
            assert(text@.take(it.index() + 1).drop_last() == before);
            assert(start + escaped(before) + written(c) == start + (escaped(before) + written(c)));
            assert(seq![c] == Seq::<char>::empty().push(c));
        }
        if c == '&' {
            out.append("&amp;");
        } else if c == '<' {
            out.append("&lt;");
        } else if c == '>' {
            out.append("&gt;");
        } else {
            out.push(c);
        }
    }
    assert(text@.take(text@.len() as int) == text@);
}

/// Cuts the noise out of the nodes of a content region and writes what is
/// left as markup: no text in or below a noise element is taken over, and
/// every other text is, in document order.
pub fn strip_noise(nodes: &Vec<RegionNode>) -> (out: String)
    ensures
        out@ == visible_markup(nodes_view(nodes@)),
{
    let mut out = String::new();
    let mut cut: Option<usize> = None;
    let mut i: usize = 0;
    while i < nodes.len()
        invariant
            i <= nodes.len(),
            out@ == visible_markup(nodes_view(nodes@).take(i as int)),
            cut == cut_after(nodes_view(nodes@).take(i as int)),
        decreases nodes.len() - i,
    {
        let node = &nodes[i];
        proof {
            let all = nodes_view(nodes@);
            assert(all.take(i + 1).drop_last() == all.take(i as int));
            assert(all.take(i + 1).last() == node@);
        }
        let below = match cut {
            Some(depth) => node.depth > depth,
            None => false,
        };
        if !below {
            if node.noise {
                cut = Some(node.depth);
            } else {
                cut = None;
                if let Some(text) = &node.text {
                    out.push(' ');
                    push_escaped(&mut out, text.as_str());
                }
            }
        }
        i = i + 1;
    }
    assert(nodes_view(nodes@).take(nodes.len() as int) == nodes_view(nodes@));
    out
}

/// No text in or below a noise element reaches the markup that is left:
/// where the node `noise` is a noise element and every node after it up to
/// the node `i` is deeper than it, the node `i` adds nothing.
pub proof fn law_noise_is_cut_out(nodes: Seq<RegionNodeView>, noise: int, i: int)
    requires
        0 <= noise <= i < nodes.len(),
        nodes[noise].noise,
        forall|k: int| noise < k <= i ==> nodes[k].depth > nodes[noise].depth,
    ensures
        cut_after(nodes.take(i + 1)) is Some,
        cut_after(nodes.take(i + 1))->Some_0 <= nodes[noise].depth,
        visible_markup(nodes.take(i + 1)) == visible_markup(nodes.take(i)),
{
    lemma_cut_inside_noise(nodes, noise, i);
    assert(nodes.take(i + 1).drop_last() == nodes.take(i));
    if noise < i {
        lemma_cut_inside_noise(nodes, noise, i - 1);
    }
}

/// The cut that holds inside a noise element: that of the noise element
/// above it, where there is one, and else its own.
proof fn lemma_cut_inside_noise(nodes: Seq<RegionNodeView>, first: int, i: int)
    requires
        0 <= first <= i < nodes.len(),
        nodes[first].noise,
        forall|k: int| first < k <= i ==> nodes[k].depth > nodes[first].depth,
    ensures
        cut_after(nodes.take(i + 1)) == if cut_after(nodes.take(first)) is Some
            && nodes[first].depth > cut_after(nodes.take(first))->Some_0 {
            cut_after(nodes.take(first))
        } else {
            Some(nodes[first].depth)
        },
        visible_markup(nodes.take(i + 1)) == visible_markup(nodes.take(first)),
    decreases i - first,
{
    assert(nodes.take(i + 1).drop_last() == nodes.take(i));
    assert(nodes.take(i + 1).last() == nodes[i]);
    if first < i {
        lemma_cut_inside_noise(nodes, first, i - 1);
    }
}

/// What is left of the nodes up to some node after a noise element is what
/// is left of them without that element.
proof fn lemma_excision(nodes: Seq<RegionNodeView>, first: int, last: int, m: int)
    requires
        0 <= first <= last < nodes.len(),
        nodes[first].noise,
        forall|k: int| first < k <= last ==> nodes[k].depth > nodes[first].depth,
        last + 1 < nodes.len() ==> nodes[last + 1].depth <= nodes[first].depth,
        0 <= m <= nodes.len() - (last + 1),
    ensures
        visible_markup(nodes.take(last + 1 + m)) == visible_markup(
            nodes.take(first) + nodes.skip(last + 1).take(m),
        ),
        m >= 1 ==> cut_after(nodes.take(last + 1 + m)) == cut_after(
            nodes.take(first) + nodes.skip(last + 1).take(m),
        ),
    decreases m,
{
    let rest = nodes.skip(last + 1);
    lemma_cut_inside_noise(nodes, first, last);
    if m == 0 {
        assert(nodes.take(first) + rest.take(0) == nodes.take(first));
    } else {
        lemma_excision(nodes, first, last, m - 1);
        let with = nodes.take(last + 1 + m);
        let without = nodes.take(first) + rest.take(m);
        assert(with.drop_last() == nodes.take(last + m));
        assert(with.last() == nodes[last + m]);
        assert(without.drop_last() == nodes.take(first) + rest.take(m - 1));
        assert(without.last() == nodes[last + m]);
        if m == 1 {
            assert(nodes.take(first) + rest.take(0) == nodes.take(first));
        }
    }
}

/// Removal is structural: the markup that is left of the nodes is that of
/// the nodes without a noise element and all that stands below it. The
/// element is the node `first`; the nodes below it are those up to the node
/// `last`.
pub proof fn law_noise_element_is_excised(nodes: Seq<RegionNodeView>, first: int, last: int)
    requires
        0 <= first <= last < nodes.len(),
        nodes[first].noise,
        forall|k: int| first < k <= last ==> nodes[k].depth > nodes[first].depth,
        last + 1 < nodes.len() ==> nodes[last + 1].depth <= nodes[first].depth,
    ensures
        visible_markup(nodes) == visible_markup(nodes.take(first) + nodes.skip(last + 1)),
{
    let m = nodes.len() - (last + 1);
    lemma_excision(nodes, first, last, m);
    assert(nodes.take(last + 1 + m) == nodes);
    assert(nodes.skip(last + 1).take(m) == nodes.skip(last + 1));
}

/// A text that stands neither in nor below a noise element is taken over,
/// as markup writes it, after the markup of what stands before it.
pub proof fn law_text_outside_noise_is_kept(nodes: Seq<RegionNodeView>, i: int)
    requires
        0 <= i < nodes.len(),
        nodes[i].text is Some,
        cut_after(nodes.take(i + 1)) is None,
    ensures
        visible_markup(nodes.take(i + 1)) == visible_markup(nodes.take(i)) + seq![' '] + escaped(
            nodes[i].text->Some_0,
        ),
{
    assert(nodes.take(i + 1).drop_last() == nodes.take(i));
    assert(nodes.take(i + 1).last() == nodes[i]);
}

/// A node is cut out only where a noise element holds it or is it: some
/// node at or before it is a noise element, and every node after that one
/// up to the node itself is deeper than it.
pub proof fn law_only_noise_is_cut_out(nodes: Seq<RegionNodeView>, i: int) -> (noise: int)
    requires
        0 <= i < nodes.len(),
        cut_after(nodes.take(i + 1)) is Some,
    ensures
        0 <= noise <= i,
        nodes[noise].noise,
        nodes[noise].depth == cut_after(nodes.take(i + 1))->Some_0,
        forall|k: int| noise < k <= i ==> nodes[k].depth > nodes[noise].depth,
    decreases i,
{
    assert(nodes.take(i + 1).drop_last() == nodes.take(i));
    assert(nodes.take(i + 1).last() == nodes[i]);
    let before = cut_after(nodes.take(i));
    if before is Some && nodes[i].depth > before->Some_0 {
        if i == 0 {
            assert(nodes.take(0).len() == 0);
            0
        } else {
            law_only_noise_is_cut_out(nodes, i - 1)
        }
    } else {
        i
    }
}

/// A text without `<`, `>` and `&` holds no markup: taking markup away
/// leaves it as it is.
proof fn lemma_plain_text_holds_no_markup(s: Seq<char>)
    requires
        forall|i: int| 0 <= i < s.len() ==> s[i] != '<' && s[i] != '>' && s[i] != '&',
    ensures
        scan_state(s) == (ScanState { in_tag: false, in_entity: false }),
        without_markup(s) == s,
    decreases s.len(),
{
    if s.len() > 0 {
        lemma_plain_text_holds_no_markup(s.drop_last());
        assert(s.drop_last().push(s.last()) == s);
    }
}

/// Taking markup away never makes a text longer.
proof fn lemma_without_markup_is_no_longer(s: Seq<char>)
    ensures
        without_markup(s).len() <= s.len(),
    decreases s.len(),
{
    if s.len() > 0 {
        lemma_without_markup_is_no_longer(s.drop_last());
    }
}

/// Clean text is clean: cleaning it again changes nothing.
pub proof fn law_cleaning_twice_is_cleaning_once(html: Seq<char>)
    ensures
        clean_text(clean_text(html)) == clean_text(html),
{
    law_clean_text_is_plain(html);
    lemma_plain_text_holds_no_markup(clean_text(html));
    law_normalization_keeps_words(without_markup(html));
}

/// Clean text is no longer than the markup that it was made of.
pub proof fn law_clean_text_is_no_longer(html: Seq<char>)
    ensures
        clean_text(html).len() <= html.len(),
{
    lemma_without_markup_is_no_longer(html);
    law_normalized_is_no_longer(without_markup(html));
}

/// The inner markup of the first element of the document `document` that
/// the selector group `selector` matches, as `first_inner_html` returns it.
pub uninterp spec fn first_match_inner_html(document: Seq<char>, selector: Seq<char>) -> Option<
    Seq<char>,
>;

/// The nodes of the fragment `fragment` in document order, each with its
/// depth, its text and whether the selector group `selector` matches it, as
/// `fragment_nodes` returns them.
pub uninterp spec fn nodes_of_fragment(fragment: Seq<char>, selector: Seq<char>) -> Seq<
    RegionNodeView,
>;

/// Parses `document` as a whole HTML document with `scraper::Html::parse_document`,
/// selects with `scraper::Selector::parse` and `Html::select`, and serializes
/// the children of the first element found with `ElementRef::inner_html`.
///
/// Nothing is claimed of the answer but that it depends on the two texts
/// alone. `None` stands for "no element matches", and also for a selector
/// that does not parse. Texts of more than `MAX_MARKUP_BYTES` bytes are
/// left out: the parser's buffers end at `u32::MAX` bytes, and a longer
/// text can overrun them.
#[verifier::external_body]
fn first_inner_html(document: &str, selector: &str) -> (found: Option<String>)
    requires
        document.spec_bytes().len() <= MAX_MARKUP_BYTES,
    ensures
        match found {
            Some(markup) => first_match_inner_html(document@, selector@) == Some(markup@),
            None => first_match_inner_html(document@, selector@) is None,
        },
{
    let selector = ::scraper::Selector::parse(selector).ok()?;
    let document = ::scraper::Html::parse_document(document);
    document.select(&selector).next().map(|element| element.inner_html())
}

/// Parses `fragment` as a piece of a document with
/// `scraper::Html::parse_fragment` and walks the tree from its root with
/// `descendants`, which gives each node before the nodes below it. Each node
/// is handed out as plain values: the number of its `ancestors`, its text
/// where `scraper::Node::as_text` gives one, and whether
/// `scraper::ElementRef::wrap` takes it for an element that the selector
/// parsed by `scraper::Selector::parse` matches.
///
/// Nothing is claimed of the answer but that it depends on the two texts
/// alone. A selector that does not parse matches nothing. Texts of more
/// than `MAX_MARKUP_BYTES` bytes are left out: the parser's buffers end at
/// `u32::MAX` bytes, and a longer text can overrun them.
#[verifier::external_body]
fn fragment_nodes(fragment: &str, selector: &str) -> (nodes: Vec<RegionNode>)
    requires
        fragment.spec_bytes().len() <= MAX_MARKUP_BYTES,
    ensures
        nodes_view(nodes@) == nodes_of_fragment(fragment@, selector@),
{
    let selector = ::scraper::Selector::parse(selector).ok();
    let html = ::scraper::Html::parse_fragment(fragment);
    let walk = html.tree.root().descendants();
    walk.map(|node| RegionNode {
        depth: node.ancestors().count(),
        text: node.value().as_text().map(|text| text.to_string()),
        noise: ::scraper::ElementRef::wrap(node).is_some_and(
            |element| selector.as_ref().is_some_and(|s| s.matches(&element)),
        ),
    }).collect()
}

/// The longest markup, in bytes, that is parsed: a third of 2^31.
///
/// The parser keeps every text in a buffer whose size is a power of two
/// that fits in 32 bits, so no text that it holds may pass 2^31 bytes; and
/// it may write three bytes where it read one, since it puts the
/// replacement character in the place of a byte that it does not take.
pub const MAX_MARKUP_BYTES: usize = 0x2AAA_AAAA;

/// Tells whether the markup `text` is short enough to be parsed: whether it
/// takes no more than `MAX_MARKUP_BYTES` bytes.
pub open spec fn fits(text: Seq<char>) -> bool {
    encode_utf8(text).len() <= MAX_MARKUP_BYTES
}

/// The inner markup of the first element of the document `document` that
/// the selector group `selector` matches. In a document that is too long to
/// be parsed nothing matches.
pub open spec fn first_match(document: Seq<char>, selector: Seq<char>) -> Option<Seq<char>> {
    if fits(document) {
        first_match_inner_html(document, selector)
    } else {
        None
    }
}

/// The nodes of the content region `region`, in document order, each with
/// its depth, its text and whether it is a noise element. A region that is
/// too long to be parsed has no nodes.
pub open spec fn region_nodes(region: Seq<char>) -> Seq<RegionNodeView> {
    if fits(region) {
        nodes_of_fragment(region, noise_selector())
    } else {
        Seq::empty()
    }
}

/// Tells whether `text` is short enough to be parsed.
fn is_parsable(text: &str) -> (b: bool)
    ensures
        b == fits(text@),
        b == (text.spec_bytes().len() <= MAX_MARKUP_BYTES),
{
    text.as_bytes().len() <= MAX_MARKUP_BYTES
}

/// Looks for the first element of `document` that `selector` matches, where
/// the document is short enough to be parsed.
fn select_first(document: &str, selector: &str) -> (found: Option<String>)
    ensures
        match found {
            Some(markup) => first_match(document@, selector@) == Some(markup@),
            None => first_match(document@, selector@) is None,
        },
{
    if is_parsable(document) {
        first_inner_html(document, selector)
    } else {
        None
    }
}

/// Parses the content region `region` into its nodes, where it is short
/// enough to be parsed.
fn parse_region(region: &str) -> (nodes: Vec<RegionNode>)
    ensures
        nodes_view(nodes@) == region_nodes(region@),
{
    if is_parsable(region) {
        fragment_nodes(
            region,
            "script, style, nav, header, footer, iframe, noscript, svg, .ads, .advertisement, .banner, .cookie-banner, .cookie-notice, .popup",
        )
    } else {
        let nodes: Vec<RegionNode> = Vec::new();
        assert(nodes_view(nodes@) =~= Seq::<RegionNodeView>::empty());
        nodes
    }
}

/// The selector of the page's body.
pub open spec fn body_selector() -> Seq<char> {
    "body"@
}

/// The selector groups that may name a page's main content, most specific
/// first.
pub open spec fn content_selectors() -> Seq<Seq<char>> {
    seq![
        "main"@,
        "article"@,
        ".content, .main-content, #content, #main-content"@,
        ".post, .entry, .blog-post"@,
        "section"@,
    ]
}

/// The selector group of the elements that are not content: scripts,
/// styles, navigation, page headers and footers, embedded frames and
/// graphics, advertisements, banners, cookie notices and popups.
pub open spec fn noise_selector() -> Seq<char> {
    "script, style, nav, header, footer, iframe, noscript, svg, .ads, .advertisement, .banner, .cookie-banner, .cookie-notice, .popup"@
}

/// The inner markup of the first match of the first of `selectors` that
/// matches anything in `html`.
pub open spec fn first_region(html: Seq<char>, selectors: Seq<Seq<char>>) -> Option<Seq<char>>
    decreases selectors.len(),
{
    if selectors.len() == 0 {
        None
    } else {
        match first_match(html, selectors[0]) {
            Some(region) => Some(region),
            None => first_region(html, selectors.skip(1)),
        }
    }
}

/// The markup that holds the content of the page `html`: what the first
/// matching content selector gives; the whole body where none matches;
/// nothing where there is no body either.
pub open spec fn content_region(html: Seq<char>) -> Seq<char> {
    match first_region(html, content_selectors()) {
        Some(region) => region,
        None => match first_match(html, body_selector()) {
            Some(body) => body,
            None => Seq::empty(),
        },
    }
}

/// The content selectors are tried in their order: where one of them
/// matches and none before it does, its first match is the content region,
/// whatever the selectors after it match.
pub proof fn law_first_matching_selector_wins(html: Seq<char>, i: int)
    requires
        0 <= i < content_selectors().len(),
        first_match(html, content_selectors()[i]) is Some,
        forall|j: int| 0 <= j < i ==> first_match(html, content_selectors()[j]) is None,
    ensures
        Some(content_region(html)) == first_match(html, content_selectors()[i]),
{
    lemma_first_region_skips(html, content_selectors(), i);
}

/// Selectors that match nothing are passed over.
proof fn lemma_first_region_skips(html: Seq<char>, selectors: Seq<Seq<char>>, i: int)
    requires
        0 <= i < selectors.len(),
        first_match(html, selectors[i]) is Some,
        forall|j: int| 0 <= j < i ==> first_match(html, selectors[j]) is None,
    ensures
        first_region(html, selectors) == first_match(html, selectors[i]),
    decreases i,
{
    if i > 0 {
        let rest = selectors.skip(1);
        assert(rest[i - 1] == selectors[i]);
        assert forall|j: int| 0 <= j < i - 1 implies first_match(
            html,
            rest[j],
        ) is None by {
            assert(rest[j] == selectors[j + 1]);
        }
        lemma_first_region_skips(html, rest, i - 1);
    }
}

/// A page with a `main` element has its content taken from there, whatever
/// else it holds.
pub proof fn law_main_comes_first(html: Seq<char>)
    requires
        first_match(html, "main"@) is Some,
    ensures
        Some(content_region(html)) == first_match(html, "main"@),
{
    law_first_matching_selector_wins(html, 0);
}

/// Where no content selector matches, the body is the content region.
pub proof fn law_body_is_the_fallback(html: Seq<char>)
    requires
        forall|j: int|
            0 <= j < content_selectors().len() ==> first_match(
                html,
                #[trigger] content_selectors()[j],
            ) is None,
        first_match(html, body_selector()) is Some,
    ensures
        Some(content_region(html)) == first_match(html, body_selector()),
{
    lemma_first_region_none(html, content_selectors());
}

/// Selectors of which none matches give no region.
proof fn lemma_first_region_none(html: Seq<char>, selectors: Seq<Seq<char>>)
    requires
        forall|j: int|
            0 <= j < selectors.len() ==> first_match(html, #[trigger] selectors[j])
                is None,
    ensures
        first_region(html, selectors) is None,
    decreases selectors.len(),
{
    if selectors.len() > 0 {
        let rest = selectors.skip(1);
        assert forall|j: int| 0 <= j < rest.len() implies first_match(
            html,
            #[trigger] rest[j],
        ) is None by {
            assert(rest[j] == selectors[j + 1]);
        }
        lemma_first_region_none(html, rest);
    }
}

/// The clean text of the page `html`: the texts of its content region that
/// stand neither in nor below a noise element, without markup, whitespace
/// normalized.
pub open spec fn formatted_text(html: Seq<char>) -> Seq<char> {
    region_text(content_region(html))
}

/// The clean text of the content region `region`: its texts that stand
/// neither in nor below a noise element, without markup, whitespace
/// normalized.
pub open spec fn region_text(region: Seq<char>) -> Seq<char> {
    clean_text(visible_markup(region_nodes(region)))
}

/// The inner markup of the body of the page `html`; `None` where the page
/// has no body element, or is too long to be parsed.
pub fn extract_body(html: &str) -> (body: Option<String>)
    ensures
        match body {
            Some(markup) => first_match(html@, body_selector()) == Some(markup@),
            None => first_match(html@, body_selector()) is None,
        },
{
    select_first(html, "body")
}

/// Finds the content region of the page `html`.
fn find_content_region(html: &str) -> (region: String)
    ensures
        region@ == content_region(html@),
{
    let selectors: Vec<&str> = vec![
        "main",
        "article",
        ".content, .main-content, #content, #main-content",
        ".post, .entry, .blog-post",
        "section",
    ];
    assert(selectors@.map_values(|s: &str| s@) =~= content_selectors());
    assert(content_selectors().skip(0) == content_selectors());
    let mut i: usize = 0;
    while i < selectors.len()
        invariant
            i <= selectors.len(),
            selectors@.map_values(|s: &str| s@) == content_selectors(),
            first_region(html@, content_selectors()) == first_region(
                html@,
                content_selectors().skip(i as int),
            ),
        decreases selectors.len() - i,
    {
        let ghost rest = content_selectors().skip(i as int);
        assert(rest[0] == selectors@[i as int]@);
        assert(rest.skip(1) == content_selectors().skip(i + 1));
        match select_first(html, selectors[i]) {
            Some(region) => {
                return region;
            },
            None => {},
        }
        i = i + 1;
    }
    match select_first(html, "body") {
        Some(body) => body,
        None => String::new(),
    }
}

/// Reduces the content region `region` to clean text.
fn clean_region(region: &str) -> (text: String)
    ensures
        text@ == region_text(region@),
{
    let nodes = parse_region(region);
    let content = strip_noise(&nodes);
    clean_html_content(content.as_str())
}

/// Reduces the page `html` to the clean text of its content.
///
/// The content selectors are tried in their fixed order and the first that
/// matches supplies the content region; the body stands in where none
/// matches. Noise elements are cut out of the region with all that they
/// hold, before markup is stripped and whitespace normalized. Markup that
/// is too long to be parsed gives no text.
pub fn format_html(html: &str) -> (text: String)
    ensures
        text@ == formatted_text(html@),
{
    let region = find_content_region(html);
    clean_region(region.as_str())
}

/// The text extracted from a page, with the number of its words.
pub struct ExtractionResult {
    pub text: String,
    pub word_count: usize,
}

/// The message of the error for a page without a body.
pub open spec fn no_body_message() -> Seq<char> {
    "no body tag found"@
}

/// The message of the error for a page that is too long to be parsed.
pub open spec fn too_long_message() -> Seq<char> {
    "page too long to parse"@
}

/// What `extract` owes for the page `html`: the clean text of the body's
/// content; or the parse error, where the page has no body, or where the
/// page, its body or its content region is too long to be parsed.
pub open spec fn extracted_text(html: Seq<char>) -> Result<Seq<char>, AppErrorView> {
    if !fits(html) {
        Err(AppErrorView::ParseError(too_long_message()))
    } else {
        match first_match(html, body_selector()) {
            None => Err(AppErrorView::ParseError(no_body_message())),
            Some(body) => if fits(body) && fits(content_region(body)) {
                Ok(formatted_text(body))
            } else {
                Err(AppErrorView::ParseError(too_long_message()))
            },
        }
    }
}

/// A page without a body is not extracted: the outcome is the parse error,
/// whatever else the page holds.
pub proof fn law_page_without_body_is_not_extracted(html: Seq<char>)
    requires
        fits(html),
        first_match(html, body_selector()) is None,
    ensures
        extracted_text(html) == Err::<Seq<char>, AppErrorView>(
            AppErrorView::ParseError(no_body_message()),
        ),
{
}

/// A page with a body is extracted, where nothing of it is too long to be
/// parsed: the outcome is the clean text of the body's content.
pub proof fn law_page_with_body_is_extracted(html: Seq<char>)
    requires
        fits(html),
        first_match(html, body_selector()) is Some,
        fits(first_match(html, body_selector())->Some_0),
        fits(content_region(first_match(html, body_selector())->Some_0)),
    ensures
        extracted_text(html) == Ok::<Seq<char>, AppErrorView>(
            formatted_text(first_match(html, body_selector())->Some_0),
        ),
{
}

/// Extraction fails with a parse error and with nothing else, and it fails
/// exactly where the page has no body or is too long to be parsed, in
/// whole or in the part that is looked at.
pub proof fn law_extraction_fails_with_parse_error(html: Seq<char>)
    ensures
        extracted_text(html) is Err ==> extracted_text(html)->Err_0 is ParseError,
        extracted_text(html) is Err <==> (!fits(html) || first_match(html, body_selector()) is None
            || !fits(first_match(html, body_selector())->Some_0) || !fits(
            content_region(first_match(html, body_selector())->Some_0),
        )),
{
}

/// Extracts the clean text of the page `html` and counts its words.
///
/// Fails with a parse error where the page has no body, and where the page,
/// its body or its content region is too long to be parsed.
pub fn extract(html: &str) -> (result: Result<ExtractionResult, AppError>)
    ensures
        match result {
            Ok(extraction) => extracted_text(html@) == Ok::<Seq<char>, AppErrorView>(
                extraction.text@,
            ) && extraction.word_count == words(extraction.text@).len(),
            Err(error) => extracted_text(html@) == Err::<Seq<char>, AppErrorView>(error@),
        },
{
    if !is_parsable(html) {
        return Err(AppError::ParseError("page too long to parse".to_owned()));
    }
    let body = match extract_body(html) {
        Some(body) => body,
        None => {
            return Err(AppError::ParseError("no body tag found".to_owned()));
        },
    };
    if !is_parsable(body.as_str()) {
        return Err(AppError::ParseError("page too long to parse".to_owned()));
    }
    let region = find_content_region(body.as_str());
    if !is_parsable(region.as_str()) {
        return Err(AppError::ParseError("page too long to parse".to_owned()));
    }
    let text = clean_region(region.as_str());
    let count = word_count(text.as_str());
    Ok(ExtractionResult { text, word_count: count })
}

/// The fixed instruction that precedes the page text in every prompt.
pub open spec fn prompt_preamble() -> Seq<char> {
    "The following is the content of a webpage. Please provide a concise summary formatted in Markdown. Focus on the key points, main ideas, and important details. Use headers, bullet points, and other Markdown formatting to make the summary structured and readable:\n\n"@
}

/// Builds the user prompt: the fixed preamble followed by `content`, unchanged.
pub fn build_prompt(content: &str) -> (prompt: String)
    ensures
        prompt@ == prompt_preamble() + content@,
{
    let mut result = String::new();
    result.append("The following is the content of a webpage. Please provide a concise summary formatted in Markdown. Focus on the key points, main ideas, and important details. Use headers, bullet points, and other Markdown formatting to make the summary structured and readable:\n\n");
    result.append(content);
    result
}

} // verus!
