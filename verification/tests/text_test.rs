use erusert::session::{classify_input, mentions_correction, SessionInput};
use erusert::text::{collapse_whitespace, decimal_string, trim_str, word_count};
use erusert::vnpu::{compose_digest, context_features, digest_context, ThermalBand};

#[test]
fn trimming_and_collapsing() {
    assert_eq!(trim_str("  a b \t\n"), "a b");
    assert_eq!(trim_str("\u{3000}x\u{85}"), "x");
    assert_eq!(trim_str("   "), "");
    assert_eq!(collapse_whitespace("  a \n\n b\u{2003}c  "), "a b c");
    assert_eq!(collapse_whitespace(""), "");
    assert_eq!(collapse_whitespace(" \t "), "");
}

#[test]
fn counting_words() {
    assert_eq!(word_count("A short context about cats."), 5);
    assert_eq!(word_count(""), 0);
    assert_eq!(word_count("  one  "), 1);
    assert_eq!(word_count(&"word ".repeat(800)), 800);
}

#[test]
fn decimal_numbers() {
    assert_eq!(decimal_string(0), "0");
    assert_eq!(decimal_string(7), "7");
    assert_eq!(decimal_string(300), "300");
    assert_eq!(decimal_string(1234567890), "1234567890");
}

#[test]
fn context_features_seen() {
    let f = context_features("He said \"42\" twice");
    assert_eq!(f.word_count, 4);
    assert!(f.has_numbers);
    assert!(f.has_quotes);
    let g = context_features("Elden Ring lore is fragmented by design.");
    assert_eq!(g.word_count, 7);
    assert!(!g.has_numbers);
    assert!(!g.has_quotes);
    assert!(context_features("it's").has_quotes);
}

#[test]
fn low_thermal_digest_is_calm() {
    let d = digest_context(ThermalBand::Cool, "A short context about cats.", "40.0");
    assert!(d.contains("absorbed") || d.contains("Structure feels"), "Got: {}", d);
    assert_eq!(
        d,
        "Context absorbed: 5 words. Structure feels narrative. Single perspective."
    );
}

#[test]
fn warm_and_hot_digests() {
    let f = context_features(&"word ".repeat(301));
    assert_eq!(
        compose_digest(ThermalBand::Warm, &f, "61.5"),
        "Processing 301 words at 61.5\u{b0}C. Patterns emerging but edges are warm. Density requires patience."
    );
    let g = context_features("test 1");
    assert_eq!(
        compose_digest(ThermalBand::Warm, &g, "55.0"),
        "Processing 2 words at 55.0\u{b0}C. Patterns emerging but edges are warm. Manageable weight."
    );
    assert_eq!(
        compose_digest(ThermalBand::Hot, &g, "88.2"),
        "\u{26a0} Thermal 88.2\u{b0}C during ingestion of 2 words. Understanding is possible but costly. Silicon remembers this effort."
    );
    assert_eq!(
        compose_digest(ThermalBand::Cool, &g, "40.0"),
        "Context absorbed: 2 words. Structure feels data-rich. Single perspective."
    );
}

#[test]
fn same_input_different_band_different_output() {
    let context = "Elden Ring lore is fragmented by design.";
    let cold = digest_context(ThermalBand::Cool, context, "38.0");
    let hot = digest_context(ThermalBand::Hot, context, "80.0");
    assert_ne!(cold, hot);
}

#[test]
fn classifying_lines() {
    assert!(matches!(classify_input("   \n"), SessionInput::Empty));
    assert!(matches!(classify_input(" EXIT "), SessionInput::Exit));
    assert!(matches!(classify_input("Quit"), SessionInput::Exit));
    assert!(matches!(classify_input("exit now"), SessionInput::Query(_)));
    assert!(matches!(classify_input("That is WRONG!"), SessionInput::Correction));
    assert!(matches!(classify_input("salah"), SessionInput::Correction));
    assert!(matches!(classify_input("a Correction please"), SessionInput::Correction));
    match classify_input("  [read:https://a.example/x] ") {
        SessionInput::Read(u) => assert_eq!(u, "https://a.example/x"),
        _ => panic!("expected a read command"),
    }
    match classify_input("  who is Radahn?  ") {
        SessionInput::Query(q) => assert_eq!(q, "who is Radahn?"),
        _ => panic!("expected a query"),
    }
}

#[test]
fn correction_words() {
    assert!(mentions_correction("you are wrong"));
    assert!(mentions_correction("correction:"));
    assert!(!mentions_correction("all good"));
    assert!(!mentions_correction("WRONG"));
}
