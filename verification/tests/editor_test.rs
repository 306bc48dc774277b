use erusert::svaisurt::{field_label, EditorKey, SvisurtEditor, FIELD_COUNT};

#[test]
fn editor_fills_fields_in_order() {
    let mut e = SvisurtEditor::new();
    for c in "calm".chars() {
        assert!(!e.handle_key(EditorKey::Char(c)));
    }
    e.handle_key(EditorKey::Tab);
    for c in "lanangx".chars() {
        e.handle_key(EditorKey::Char(c));
    }
    e.handle_key(EditorKey::Backspace);
    e.handle_key(EditorKey::Enter);
    for c in "casual".chars() {
        e.handle_key(EditorKey::Char(c));
    }
    e.handle_key(EditorKey::Tab);
    e.handle_key(EditorKey::Other);
    for c in "be kind".chars() {
        e.handle_key(EditorKey::Char(c));
    }
    assert_eq!(e.current_field(), 3);
    assert!(e.handle_key(EditorKey::Esc));
    let p = e.into_personalization();
    assert_eq!(p.tone, "calm");
    assert_eq!(p.humor_level, "lanang");
    assert_eq!(p.formality, "casual");
    assert_eq!(p.custom_instructions, "be kind");
}

#[test]
fn editor_wraps_around_and_backspace_on_empty() {
    let mut e = SvisurtEditor::new();
    e.handle_key(EditorKey::Backspace);
    assert_eq!(e.value(0), "");
    for _ in 0..FIELD_COUNT {
        e.handle_key(EditorKey::Tab);
    }
    assert_eq!(e.current_field(), 0);
    e.handle_key(EditorKey::Char('\u{e9}'));
    e.handle_key(EditorKey::Char('x'));
    e.handle_key(EditorKey::Backspace);
    assert_eq!(e.value(0), "\u{e9}");
}

#[test]
fn editor_labels() {
    assert_eq!(field_label(0), "Tone (e.g., calm, chaotic, warm, dry)");
    assert_eq!(field_label(1), "Humor level (none / subtle / lanang / unhinged)");
    assert_eq!(field_label(2), "Formality (casual / neutral / formal / poetic)");
    assert_eq!(field_label(3), "Custom instructions (anything extra)");
}
