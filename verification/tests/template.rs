use typ2tex::document::Document;
use typ2tex::typ2tex;

fn some(text: &str) -> Option<String> {
    Some(text.to_string())
}

#[test]
fn default_document_is_blank() {
    let document = Document::default();
    assert_eq!(document.title, None);
    assert_eq!(document.authors, None);
    assert_eq!(document.date, None);
    assert_eq!(document.abstractt, None);
    assert_eq!(document.bibliography, None);
    assert_eq!(document.content, "");
}

#[test]
fn template_places_are_filled_from_the_document() {
    let document = Document {
        title: some("T"),
        authors: some("A"),
        date: some("2024"),
        abstractt: some("S"),
        bibliography: some("refs"),
        content: "body".to_string(),
    };
    let template = "%title%|%authors%|%abstract%|%bibliography%|%date%|%content%";
    assert_eq!(document.to_latex(template.to_string()), "T|A|S|refs|2024|body");
}

#[test]
fn unset_fields_fill_with_nothing_and_the_date_with_today() {
    let document = Document::default();
    let template = "[%title%][%authors%][%abstract%][%bibliography%][%date%][%content%]";
    assert_eq!(document.to_latex(template.to_string()), "[][][][][\\today][]");
}

#[test]
fn place_is_filled_wherever_it_occurs() {
    let mut document = Document::default();
    document.title = some("T");
    document.content = "x".to_string();
    assert_eq!(
        document.to_latex("%title% %title%%content%%content% %other% %".to_string()),
        "T Txx %other% %"
    );
    assert_eq!(document.to_latex(String::new()), "");
}

#[test]
fn places_are_filled_one_after_the_other() {
    let mut document = Document::default();
    document.title = some("%content%");
    document.content = "%title%".to_string();
    assert_eq!(document.to_latex("%title%".to_string()), "%title%");
    document.title = some("%con");
    document.authors = some("tent%");
    assert_eq!(document.to_latex("%title%%authors%".to_string()), "%title%");
}

#[test]
fn output_file_is_named_after_the_stem() {
    assert_eq!(typ2tex(Some("paper")), "paper.tex");
    assert_eq!(typ2tex(Some("my.notes")), "my.notes.tex");
    assert_eq!(typ2tex(Some("")), ".tex");
    assert_eq!(typ2tex(None), "output.tex");
}
