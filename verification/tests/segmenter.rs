use typ2tex::node::{Node, NodeKind};
use typ2tex::segment::process_text;
use typ2tex::text::Text;

fn leaf(kind: NodeKind, text: &str) -> Node {
    Node { kind, text: text.to_string(), children: Vec::new() }
}

fn branch(kind: NodeKind, children: Vec<Node>) -> Node {
    Node { kind, text: String::new(), children }
}

fn shown(segments: &Vec<Text>) -> Vec<String> {
    segments
        .iter()
        .map(|segment| match segment {
            Text::Raw(text) => format!("raw:{}", text),
            Text::Citation(key) => format!("cite:{}", key),
            Text::Latex(content) => format!("latex:{}", content),
        })
        .collect()
}

#[test]
fn literal_text_is_gathered_into_one_run() {
    let line = branch(
        NodeKind::Line,
        vec![
            leaf(NodeKind::RawText, "let "),
            leaf(NodeKind::Math, "$x$"),
            leaf(NodeKind::RawText, " in "),
            leaf(NodeKind::Grid, "#grid()"),
            leaf(NodeKind::Newline, "\n"),
        ],
    );
    assert_eq!(shown(&process_text(&line)), vec!["raw:let $x$ in #grid()\n"]);
}

#[test]
fn citation_stands_between_the_runs_around_it() {
    let line = branch(
        NodeKind::Line,
        vec![
            leaf(NodeKind::RawText, "see "),
            leaf(NodeKind::Citation, "@knuth "),
            leaf(NodeKind::RawText, "for more"),
        ],
    );
    assert_eq!(
        shown(&process_text(&line)),
        vec!["raw:see ", "cite:@knuth ", "raw:for more"]
    );
}

#[test]
fn adjacent_citations_stay_apart_and_in_order() {
    let line = branch(
        NodeKind::Line,
        vec![leaf(NodeKind::Citation, "@a"), leaf(NodeKind::Citation, "@b")],
    );
    assert_eq!(shown(&process_text(&line)), vec!["cite:@a", "cite:@b"]);
    let same = branch(
        NodeKind::Line,
        vec![leaf(NodeKind::Citation, "@a"), leaf(NodeKind::Citation, "@a")],
    );
    assert_eq!(shown(&process_text(&same)), vec!["cite:@a", "cite:@a"]);
}

#[test]
fn groups_put_their_delimiters_around_their_children() {
    let line = branch(
        NodeKind::Line,
        vec![
            branch(NodeKind::ParenGroup, vec![leaf(NodeKind::RawText, "a")]),
            branch(NodeKind::BrackGroup, vec![leaf(NodeKind::RawText, "b")]),
            branch(NodeKind::QuoteGroup, vec![leaf(NodeKind::RawText, "c")]),
            branch(NodeKind::ParenGroup, vec![]),
        ],
    );
    assert_eq!(shown(&process_text(&line)), vec!["raw:(a)[b]\"c\"()"]);
}

#[test]
fn citation_inside_nested_groups_is_still_a_segment() {
    let line = branch(
        NodeKind::Line,
        vec![
            leaf(NodeKind::RawText, "as "),
            branch(
                NodeKind::ParenGroup,
                vec![
                    leaf(NodeKind::RawText, "in "),
                    branch(
                        NodeKind::BrackGroup,
                        vec![leaf(NodeKind::Citation, "@a"), leaf(NodeKind::RawText, ", p. 3")],
                    ),
                ],
            ),
            leaf(NodeKind::RawText, "."),
        ],
    );
    assert_eq!(
        shown(&process_text(&line)),
        vec!["raw:as (in [", "cite:@a", "raw:, p. 3]).",]
    );
}

#[test]
fn group_text_is_not_read_only_its_children() {
    let group = Node {
        kind: NodeKind::ParenGroup,
        text: "(ignored)".to_string(),
        children: vec![leaf(NodeKind::RawText, "kept")],
    };
    assert_eq!(shown(&process_text(&group)), vec!["raw:(kept)"]);
    let other = Node {
        kind: NodeKind::Caption,
        text: "ignored".to_string(),
        children: vec![leaf(NodeKind::RawText, "kept")],
    };
    assert_eq!(shown(&process_text(&other)), vec!["raw:kept"]);
}

#[test]
fn literal_node_gives_its_own_text_not_its_children() {
    let math = Node {
        kind: NodeKind::Math,
        text: "$a$".to_string(),
        children: vec![leaf(NodeKind::RawText, "a")],
    };
    assert_eq!(shown(&process_text(&math)), vec!["raw:$a$"]);
    let newline = leaf(NodeKind::Newline, "\r\n");
    assert_eq!(shown(&process_text(&newline)), vec!["raw:\r\n"]);
}

#[test]
fn empty_content_gives_no_segment() {
    assert!(process_text(&branch(NodeKind::Line, vec![])).is_empty());
    assert!(process_text(&leaf(NodeKind::RawText, "")).is_empty());
    assert!(process_text(&branch(NodeKind::Line, vec![leaf(NodeKind::RawText, "")])).is_empty());
    assert!(process_text(&leaf(NodeKind::Label, "<x>")).is_empty());
}

#[test]
fn citation_alone_is_one_segment() {
    assert_eq!(shown(&process_text(&leaf(NodeKind::Citation, "@a"))), vec!["cite:@a"]);
    let line = branch(
        NodeKind::Line,
        vec![leaf(NodeKind::RawText, ""), leaf(NodeKind::Citation, "@a"), leaf(NodeKind::RawText, "")],
    );
    assert_eq!(shown(&process_text(&line)), vec!["cite:@a"]);
}
