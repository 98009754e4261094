use birbfetcher::statements::{blank, split_statements};

#[test]
fn splits_on_semicolons() {
    assert_eq!(split_statements("a;b;c"), vec!["a", "b", "c"]);
    assert_eq!(split_statements("a;b;c;"), vec!["a", "b", "c"]);
    assert_eq!(split_statements("SELECT 1"), vec!["SELECT 1"]);
}

#[test]
fn trims_blanks_around_statements() {
    assert_eq!(split_statements("  a  ;\n\tb\r\n;  c d  "), vec!["a", "b", "c d"]);
    assert_eq!(split_statements("\nCREATE TABLE t\n(\n  x INT\n);\n"), vec!["CREATE TABLE t\n(\n  x INT\n)"]);
}

#[test]
fn drops_empty_statements() {
    assert_eq!(split_statements(""), Vec::<String>::new());
    assert_eq!(split_statements(";"), Vec::<String>::new());
    assert_eq!(split_statements(";;;"), Vec::<String>::new());
    assert_eq!(split_statements("  \n ; \t ;\r\n"), Vec::<String>::new());
    assert_eq!(split_statements(";a;;b;"), vec!["a", "b"]);
}

#[test]
fn keeps_blanks_inside_statements() {
    assert_eq!(split_statements("a  b"), vec!["a  b"]);
    assert_eq!(split_statements("a\nb ; c\td"), vec!["a\nb", "c\td"]);
}

#[test]
fn handles_text_beyond_ascii() {
    assert_eq!(split_statements(" é ; ü;ß "), vec!["é", "ü", "ß"]);
    assert_eq!(split_statements("鳥;  🐦  "), vec!["鳥", "🐦"]);
}

#[test]
fn blanks() {
    for c in [' ', '\t', '\n', '\r'] {
        assert!(blank(c));
    }
    for c in ['a', ';', '0', '_', '\u{a0}', 'é'] {
        assert!(!blank(c));
    }
}
