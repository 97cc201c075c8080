use typ2tex::citations::CitationSet;
use typ2tex::document::Document;
use typ2tex::error::Error;
use typ2tex::explore::{explore, Action};
use typ2tex::node::{Node, NodeKind};

fn leaf(kind: NodeKind, text: &str) -> Node {
    Node { kind, text: text.to_string(), children: Vec::new() }
}

fn branch(kind: NodeKind, children: Vec<Node>) -> Node {
    Node { kind, text: String::new(), children }
}

fn content(text: &str) -> Node {
    branch(NodeKind::Line, vec![leaf(NodeKind::RawText, text)])
}

fn wrapping(kind: NodeKind, text: &str) -> Node {
    branch(kind, vec![content(text)])
}

fn set_of(keys: &[&str]) -> CitationSet {
    let mut set = CitationSet::new();
    for key in keys {
        set.insert(key.to_string());
    }
    set
}

fn drive(
    nodes: Vec<Node>,
    citations: CitationSet,
    convert: &dyn Fn(&str) -> Result<String, String>,
    asked: &mut Vec<String>,
) -> Result<Document, Error> {
    let mut walk = explore(nodes, citations);
    let mut action = walk.action();
    loop {
        match action {
            Action::Convert(markup) => {
                asked.push(markup.clone());
                let next = walk.step(convert(&markup));
                walk = next.0;
                action = next.1;
            }
            Action::Finish(document) => return Ok(document),
            Action::Abort(error) => return Err(error),
        }
    }
}

fn same(markup: &str) -> Result<String, String> {
    Ok(markup.to_string())
}

fn bracketed(markup: &str) -> Result<String, String> {
    Ok(format!("<{}>", markup))
}

fn render(nodes: Vec<Node>) -> Document {
    let mut asked = Vec::new();
    drive(nodes, set_of(&[]), &same, &mut asked).unwrap()
}

#[test]
fn headings_and_lines_keep_their_source_order() {
    let nodes = vec![
        wrapping(NodeKind::Section, "A"),
        content("x"),
        wrapping(NodeKind::Section, "B"),
    ];
    let mut asked = Vec::new();
    let document = drive(nodes, set_of(&[]), &same, &mut asked).unwrap();
    assert_eq!(document.content, "\\section{A}\nx\\section{B}\n");
    assert_eq!(asked, vec!["A", "x", "B"]);
}

#[test]
fn each_kind_of_heading_has_its_command() {
    let nodes = vec![
        wrapping(NodeKind::Section, "one"),
        wrapping(NodeKind::Subsection, "two"),
        wrapping(NodeKind::Subsubsection, "three"),
    ];
    assert_eq!(
        render(nodes).content,
        "\\section{one}\n\\subsection{two}\n\\subsubsection{three}\n"
    );
}

#[test]
fn newline_is_a_line_break_and_proof_an_environment() {
    let nodes = vec![
        content("a"),
        leaf(NodeKind::Newline, "\r\n"),
        wrapping(NodeKind::Proof, "by induction"),
        leaf(NodeKind::Newline, "\n"),
    ];
    let mut asked = Vec::new();
    let document = drive(nodes, set_of(&[]), &bracketed, &mut asked).unwrap();
    assert_eq!(document.content, "<a>\n\\begin{proof}<by induction>\\end{proof}\n");
    assert_eq!(asked, vec!["a", "by induction"]);
}

#[test]
fn repeated_nodes_are_all_rendered() {
    let nodes = vec![content("x"), content("x"), content("x")];
    let mut asked = Vec::new();
    let document = drive(nodes, set_of(&[]), &same, &mut asked).unwrap();
    assert_eq!(document.content, "xxx");
    assert_eq!(asked, vec!["x", "x", "x"]);
}

#[test]
fn figure_gives_content_then_caption_then_label() {
    let in_order = branch(
        NodeKind::Figure,
        vec![
            wrapping(NodeKind::FigContent, "image"),
            wrapping(NodeKind::Caption, "a caption"),
            leaf(NodeKind::Label, "fig:one"),
        ],
    );
    let expected = "\\begin{figure}\nimage\n\\caption{a caption}\n\\label{fig:one}\\end{figure}";
    assert_eq!(render(vec![in_order]).content, expected);
    let caption_first = branch(
        NodeKind::Figure,
        vec![
            leaf(NodeKind::Label, "fig:one"),
            wrapping(NodeKind::Caption, "a caption"),
            wrapping(NodeKind::FigContent, "image"),
        ],
    );
    let mut asked = Vec::new();
    let document = drive(vec![caption_first], set_of(&[]), &same, &mut asked).unwrap();
    assert_eq!(document.content, expected);
    assert_eq!(asked, vec!["a caption", "image"]);
}

#[test]
fn figure_without_its_parts_is_still_a_figure() {
    assert_eq!(
        render(vec![branch(NodeKind::Figure, vec![])]).content,
        "\\begin{figure}\n\n\\caption{}\n\\end{figure}"
    );
    let only_caption = branch(NodeKind::Figure, vec![wrapping(NodeKind::Caption, "c")]);
    assert_eq!(
        render(vec![only_caption]).content,
        "\\begin{figure}\n\n\\caption{c}\n\\end{figure}"
    );
}

#[test]
fn figure_keeps_the_last_of_a_repeated_part() {
    let figure = branch(
        NodeKind::Figure,
        vec![
            wrapping(NodeKind::Caption, "first"),
            wrapping(NodeKind::FigContent, "image"),
            wrapping(NodeKind::Caption, "second"),
            leaf(NodeKind::Label, "a"),
            leaf(NodeKind::Label, "b"),
        ],
    );
    let mut asked = Vec::new();
    let document = drive(vec![figure], set_of(&[]), &same, &mut asked).unwrap();
    assert_eq!(
        document.content,
        "\\begin{figure}\nimage\n\\caption{second}\n\\label{b}\\end{figure}"
    );
    assert_eq!(asked, vec!["first", "image", "second"]);
}

#[test]
fn label_is_not_converted() {
    let figure = branch(
        NodeKind::Figure,
        vec![wrapping(NodeKind::FigContent, "image"), leaf(NodeKind::Label, "fig_α")],
    );
    let mut asked = Vec::new();
    let document = drive(vec![figure], set_of(&[]), &bracketed, &mut asked).unwrap();
    assert_eq!(
        document.content,
        "\\begin{figure}\n<image>\n\\caption{}\n\\label{fig_α}\\end{figure}"
    );
    assert_eq!(asked, vec!["image"]);
}

#[test]
fn theorem_is_an_environment_named_by_its_type() {
    let theorem = branch(
        NodeKind::Theorem,
        vec![
            leaf(NodeKind::ThType, "lemma"),
            wrapping(NodeKind::ThTitle, "Zorn"),
            wrapping(NodeKind::ThContent, "Every chain has a bound."),
            leaf(NodeKind::Label, "lem:zorn"),
        ],
    );
    assert_eq!(
        render(vec![theorem]).content,
        "\\begin{lemma}{Zorn}\\label{lem:zorn}\nEvery chain has a bound.\n\\end{lemma}\n"
    );
}

#[test]
fn theorem_without_title_and_label_has_neither() {
    let theorem = branch(
        NodeKind::Theorem,
        vec![wrapping(NodeKind::ThContent, "body"), leaf(NodeKind::ThType, "theorem")],
    );
    let mut asked = Vec::new();
    let document = drive(vec![theorem], set_of(&[]), &bracketed, &mut asked).unwrap();
    assert_eq!(document.content, "\\begin{theorem}\n<body>\n\\end{theorem}\n");
    assert_eq!(asked, vec!["body"]);
}

#[test]
fn header_fills_the_fields_and_leaves_the_body() {
    let header = branch(
        NodeKind::Header,
        vec![
            wrapping(NodeKind::MyTitle, "On Things"),
            wrapping(NodeKind::MyAbstract, "We study things."),
            leaf(NodeKind::MyName, "A. Author and B. Author"),
            wrapping(NodeKind::MyBib, "refs.bib"),
        ],
    );
    let mut asked = Vec::new();
    let nodes = vec![header, content("text")];
    let document = drive(nodes, set_of(&[]), &bracketed, &mut asked).unwrap();
    assert_eq!(document.title.as_deref(), Some("<On Things>"));
    assert_eq!(document.abstractt.as_deref(), Some("<We study things.>"));
    assert_eq!(document.authors.as_deref(), Some("A. Author and B. Author"));
    assert_eq!(document.bibliography.as_deref(), Some("<refs.bib>"));
    assert_eq!(document.date, None);
    assert_eq!(document.content, "<text>");
    assert_eq!(asked, vec!["On Things", "We study things.", "refs.bib", "text"]);
}

#[test]
fn repeated_header_field_keeps_the_last() {
    let first = branch(
        NodeKind::Header,
        vec![
            wrapping(NodeKind::MyTitle, "draft"),
            leaf(NodeKind::MyName, "A"),
            wrapping(NodeKind::MyTitle, "second draft"),
        ],
    );
    let second = branch(
        NodeKind::Header,
        vec![wrapping(NodeKind::MyTitle, "final"), wrapping(NodeKind::MyAbstract, "short")],
    );
    let document = render(vec![first, content("x"), second]);
    assert_eq!(document.title.as_deref(), Some("final"));
    assert_eq!(document.authors.as_deref(), Some("A"));
    assert_eq!(document.abstractt.as_deref(), Some("short"));
    assert_eq!(document.bibliography, None);
    assert_eq!(document.content, "x");
}

#[test]
fn document_without_header_has_no_header_field() {
    let document = render(vec![content("x")]);
    assert_eq!(document.title, None);
    assert_eq!(document.authors, None);
    assert_eq!(document.date, None);
    assert_eq!(document.abstractt, None);
    assert_eq!(document.bibliography, None);
}

#[test]
fn other_kinds_at_the_top_are_ignored() {
    let nodes = vec![
        leaf(NodeKind::RawText, "stray"),
        branch(NodeKind::Program, vec![content("inside")]),
        leaf(NodeKind::Citation, "@a"),
        wrapping(NodeKind::Caption, "stray caption"),
        leaf(NodeKind::Label, "l"),
        content("kept"),
    ];
    let mut asked = Vec::new();
    let document = drive(nodes, set_of(&[]), &same, &mut asked).unwrap();
    assert_eq!(document.content, "kept");
    assert_eq!(asked, vec!["kept"]);
}

#[test]
fn empty_document_is_finished_at_once() {
    let walk = explore(Vec::new(), set_of(&[]));
    match walk.action() {
        Action::Finish(document) => {
            assert_eq!(document.content, "");
            assert_eq!(document.title, None);
        }
        other => panic!("{:?}", other),
    }
}

#[test]
fn citations_travel_as_placeholders_and_come_back_resolved() {
    let line = branch(
        NodeKind::Line,
        vec![
            leaf(NodeKind::RawText, "by "),
            leaf(NodeKind::Citation, "@foo "),
            leaf(NodeKind::RawText, "and "),
            branch(NodeKind::ParenGroup, vec![leaf(NodeKind::Citation, "@bar")]),
        ],
    );
    let mut asked = Vec::new();
    let document = drive(vec![line], set_of(&["foo"]), &bracketed, &mut asked).unwrap();
    assert_eq!(asked, vec!["by identifier1identifierand (identifier2identifier)"]);
    assert_eq!(document.content, "<by \\cite{foo} and (\\ref{bar})>");
}

#[test]
fn placeholders_are_numbered_anew_in_each_field() {
    let nodes = vec![
        branch(NodeKind::Line, vec![leaf(NodeKind::Citation, "@a"), leaf(NodeKind::Citation, "@b")]),
        branch(NodeKind::Section, vec![leaf(NodeKind::Citation, "@c")]),
    ];
    let mut asked = Vec::new();
    let document = drive(nodes, set_of(&["c"]), &same, &mut asked).unwrap();
    assert_eq!(asked, vec!["identifier1identifieridentifier2identifier", "identifier1identifier"]);
    assert_eq!(document.content, "\\ref{a}\\ref{b}\\section{\\cite{c}}\n");
}

#[test]
fn only_the_content_child_of_a_heading_is_rendered() {
    let section = branch(
        NodeKind::Section,
        vec![content("title"), content("not part of it")],
    );
    let mut asked = Vec::new();
    let document = drive(vec![section], set_of(&[]), &same, &mut asked).unwrap();
    assert_eq!(document.content, "\\section{title}\n");
    assert_eq!(asked, vec!["title"]);
}

#[test]
fn converter_is_asked_once_for_an_empty_field() {
    let nodes = vec![branch(NodeKind::Line, vec![]), wrapping(NodeKind::Section, "")];
    let mut asked = Vec::new();
    let document = drive(nodes, set_of(&[]), &bracketed, &mut asked).unwrap();
    assert_eq!(asked, vec!["", ""]);
    assert_eq!(document.content, "<>\\section{<>}\n");
    let mut asked = Vec::new();
    let nodes = vec![branch(NodeKind::Line, vec![])];
    let document = drive(nodes, set_of(&[]), &same, &mut asked).unwrap();
    assert_eq!(asked, vec![""]);
    assert_eq!(document.content, "");
}

#[test]
fn failed_conversion_ends_the_walk_without_a_document() {
    let nodes = vec![
        wrapping(NodeKind::Section, "good"),
        branch(NodeKind::Line, vec![leaf(NodeKind::RawText, "bad "), leaf(NodeKind::Citation, "@a")]),
        content("never asked"),
    ];
    let failing = |markup: &str| {
        if markup.starts_with("bad") {
            Err("converter broke".to_string())
        } else {
            Ok(markup.to_string())
        }
    };
    let mut asked = Vec::new();
    let result = drive(nodes, set_of(&[]), &failing, &mut asked);
    match result {
        Err(Error::ConversionFailure { input, reason }) => {
            assert_eq!(input, "bad identifier1identifier");
            assert_eq!(reason, "converter broke");
        }
        other => panic!("{:?}", other),
    }
    assert_eq!(asked, vec!["good", "bad identifier1identifier"]);
}

#[test]
fn failed_walk_stays_failed() {
    let walk = explore(vec![content("a"), content("b")], set_of(&[]));
    let (walk, action) = walk.step(Err("no".to_string()));
    assert!(matches!(action, Action::Abort(Error::ConversionFailure { .. })));
    let (walk, action) = walk.step(Ok("late".to_string()));
    match action {
        Action::Abort(Error::ConversionFailure { input, reason }) => {
            assert_eq!(input, "a");
            assert_eq!(reason, "no");
        }
        other => panic!("{:?}", other),
    }
    assert!(matches!(walk.action(), Action::Abort(Error::ConversionFailure { .. })));
}

#[test]
fn finished_walk_takes_no_more_replies() {
    let walk = explore(vec![content("a")], set_of(&[]));
    let (walk, action) = walk.step(Ok("A".to_string()));
    assert!(matches!(action, Action::Finish(_)));
    let (_, action) = walk.step(Ok("B".to_string()));
    match action {
        Action::Finish(document) => assert_eq!(document.content, "A"),
        other => panic!("{:?}", other),
    }
}

#[test]
fn missing_content_is_a_grammar_violation() {
    let cases = vec![
        branch(NodeKind::Section, vec![]),
        branch(NodeKind::Subsection, vec![]),
        branch(NodeKind::Subsubsection, vec![]),
        branch(NodeKind::Proof, vec![]),
        branch(NodeKind::Figure, vec![branch(NodeKind::Caption, vec![])]),
        branch(NodeKind::Figure, vec![branch(NodeKind::FigContent, vec![])]),
        branch(NodeKind::Header, vec![branch(NodeKind::MyTitle, vec![])]),
        branch(NodeKind::Header, vec![branch(NodeKind::MyAbstract, vec![])]),
        branch(NodeKind::Header, vec![branch(NodeKind::MyBib, vec![])]),
        branch(
            NodeKind::Theorem,
            vec![leaf(NodeKind::ThType, "lemma"), branch(NodeKind::ThContent, vec![])],
        ),
        branch(
            NodeKind::Theorem,
            vec![
                leaf(NodeKind::ThType, "lemma"),
                wrapping(NodeKind::ThContent, "x"),
                branch(NodeKind::ThTitle, vec![]),
            ],
        ),
    ];
    for node in cases {
        let mut asked = Vec::new();
        let result = drive(vec![content("before"), node], set_of(&[]), &same, &mut asked);
        assert!(matches!(result, Err(Error::GrammarViolation)));
        assert!(asked.is_empty());
    }
}

#[test]
fn theorem_needs_its_type_and_its_body() {
    let no_type = branch(NodeKind::Theorem, vec![wrapping(NodeKind::ThContent, "x")]);
    let no_body = branch(NodeKind::Theorem, vec![leaf(NodeKind::ThType, "lemma")]);
    let neither = branch(NodeKind::Theorem, vec![]);
    for node in vec![no_type, no_body, neither] {
        let mut asked = Vec::new();
        let result = drive(vec![node], set_of(&[]), &same, &mut asked);
        assert!(matches!(result, Err(Error::GrammarViolation)));
        assert!(asked.is_empty());
    }
}

#[test]
fn parts_that_are_not_rendered_need_no_child() {
    let figure = branch(NodeKind::Figure, vec![branch(NodeKind::Label, vec![])]);
    let header = branch(NodeKind::Header, vec![branch(NodeKind::MyName, vec![])]);
    let document = render(vec![figure, header]);
    assert_eq!(document.content, "\\begin{figure}\n\n\\caption{}\n\\label{}\\end{figure}");
    assert_eq!(document.authors.as_deref(), Some(""));
}
