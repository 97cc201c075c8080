use typ2tex::pandoc::{apply_unicode2tex, converted_text, typst2latex, unicode2tex};

#[test]
fn greek_letters_have_their_commands() {
    assert_eq!(unicode2tex('α'), Some("\\alpha"));
    assert_eq!(unicode2tex('ε'), Some("\\varepsilon"));
    assert_eq!(unicode2tex('ϵ'), Some("\\epsilon"));
    assert_eq!(unicode2tex('φ'), Some("\\varphi"));
    assert_eq!(unicode2tex('ϕ'), Some("\\phi"));
    assert_eq!(unicode2tex('ο'), Some("\\omicron"));
    assert_eq!(unicode2tex('ω'), Some("\\omega"));
    assert_eq!(unicode2tex('ς'), Some("\\varsigma"));
    assert_eq!(unicode2tex('ϑ'), Some("\\vartheta"));
    assert_eq!(unicode2tex('ϖ'), Some("\\varpi"));
    assert_eq!(unicode2tex('ϱ'), Some("\\varrho"));
    assert_eq!(unicode2tex('Α'), Some("\\Alpha"));
    assert_eq!(unicode2tex('Γ'), Some("\\Gamma"));
    assert_eq!(unicode2tex('Ο'), Some("0"));
    assert_eq!(unicode2tex('Ω'), Some("\\Omega"));
}

#[test]
fn every_letter_of_the_table_has_a_command() {
    let lower = "αβγδεζηθικλμνξοπρστυφχψω";
    let upper = "ΑΒΓΔΕΖΗΘΙΚΛΜΝΞΟΠΡΣΤΥΦΧΨΩ";
    let variants = "ϵϑϖϱςϕ";
    assert_eq!(lower.chars().count(), 24);
    assert_eq!(upper.chars().count(), 24);
    for c in lower.chars().chain(upper.chars()).chain(variants.chars()) {
        assert!(unicode2tex(c).is_some());
    }
}

#[test]
fn other_characters_have_no_command() {
    for c in ['a', 'A', '0', ' ', '\\', '\n', 'é', 'ϐ', 'ϰ', 'א', '∑', '𝛼'] {
        assert_eq!(unicode2tex(c), None);
    }
}

#[test]
fn letters_in_a_text_are_replaced_where_they_stand() {
    assert_eq!(apply_unicode2tex("α+β = γ"), "\\alpha+\\beta = \\gamma");
    assert_eq!(apply_unicode2tex("no letters"), "no letters");
    assert_eq!(apply_unicode2tex(""), "");
    assert_eq!(apply_unicode2tex("ΔΔ"), "\\Delta\\Delta");
    assert_eq!(apply_unicode2tex("é∑α"), "é∑\\alpha");
}

#[test]
fn output_of_a_good_run_is_trimmed_at_its_end_and_given_commands() {
    assert_eq!(
        converted_text(true, Some("  \\emph{π}  \n\n".to_string()), "ignored"),
        Ok("  \\emph{\\pi}".to_string())
    );
    assert_eq!(converted_text(true, Some(String::new()), ""), Ok(String::new()));
    assert_eq!(converted_text(true, Some(" \n\t".to_string()), ""), Ok(String::new()));
}

#[test]
fn failed_run_reports_the_complaint() {
    assert_eq!(
        converted_text(false, Some("output".to_string()), "unknown format"),
        Err("Pandoc conversion failed: unknown format".to_string())
    );
    assert_eq!(
        converted_text(false, None, ""),
        Err("Pandoc conversion failed: ".to_string())
    );
}

#[test]
fn output_that_is_no_text_is_a_failure() {
    assert_eq!(
        converted_text(true, None, "ignored"),
        Err("Pandoc produced invalid UTF-8 output".to_string())
    );
}

#[test]
fn run_is_judged_from_the_bytes_it_left() {
    assert_eq!(
        typst2latex(true, "x = α\n".as_bytes().to_vec(), Vec::new()),
        Ok("x = \\alpha".to_string())
    );
    assert_eq!(
        typst2latex(true, vec![0x61, 0xff, 0x62], Vec::new()),
        Err("Pandoc produced invalid UTF-8 output".to_string())
    );
    assert_eq!(
        typst2latex(false, b"partial".to_vec(), b"bad input".to_vec()),
        Err("Pandoc conversion failed: bad input".to_string())
    );
    assert_eq!(
        typst2latex(false, vec![0xff], vec![0x61, 0xff]),
        Err("Pandoc conversion failed: a\u{fffd}".to_string())
    );
    assert_eq!(typst2latex(true, Vec::new(), b"warning".to_vec()), Ok(String::new()));
}
