use stp_home::numbers::number_text;

#[test]
fn plain_and_fractional_numbers_are_accepted() {
    assert!(number_text("0"));
    assert!(number_text("220"));
    assert!(number_text("5.5"));
    assert!(number_text("5."));
    assert!(number_text(".5"));
    assert!(number_text("-12.75"));
    assert!(number_text("+3"));
}

#[test]
fn exponents_are_accepted() {
    assert!(number_text("1e3"));
    assert!(number_text("1E3"));
    assert!(number_text("2.5e-1"));
    assert!(number_text("-1.e+2"));
    assert!(number_text(".5e1"));
}

#[test]
fn special_words_are_accepted_in_any_case() {
    assert!(number_text("inf"));
    assert!(number_text("-inf"));
    assert!(number_text("Infinity"));
    assert!(number_text("nan"));
    assert!(number_text("NaN"));
    assert!(number_text("+NAN"));
}

#[test]
fn malformed_fields_are_rejected() {
    assert!(!number_text(""));
    assert!(!number_text("."));
    assert!(!number_text("abc"));
    assert!(!number_text("5x"));
    assert!(!number_text("1e"));
    assert!(!number_text("e3"));
    assert!(!number_text("1e2e3"));
    assert!(!number_text("--5"));
    assert!(!number_text("5 "));
    assert!(!number_text("infx"));
    assert!(!number_text("1.2.3"));
}

#[test]
fn agreement_with_float_parsing() {
    let samples = [
        "0", "220", "5.5", "5.", ".5", "-12.75", "+3", "1e3", "2.5e-1", "-1.e+2", "inf",
        "Infinity", "nan", "", ".", "abc", "5x", "1e", "e3", "1e2e3", "--5", "5 ", "infx",
        "1.2.3", "0x10", "1_000",
    ];
    for s in samples {
        assert_eq!(s.parse::<f64>().is_ok(), number_text(s), "disagreement on {:?}", s);
    }
}
