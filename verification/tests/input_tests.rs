use symfose::input::{
    compile_chord_set, compile_note_bindings, parse_chord, BindingError, ChordError,
};

#[test]
fn parses_function_key() {
    let chord = parse_chord("f1").unwrap();
    assert_eq!(chord.key, "f1");
}

#[test]
fn parses_plain_f_as_character() {
    let chord = parse_chord("f").unwrap();
    assert_eq!(chord.key, "f");
}

#[test]
fn parses_modifiers_and_normalizes_case() {
    let chord = parse_chord("Ctrl+Shift+F5").unwrap();
    assert_eq!(chord.key, "f5");
    assert!(chord.modifiers.ctrl);
    assert!(chord.modifiers.shift);
    assert!(!chord.modifiers.alt);
    assert!(!chord.modifiers.logo);
}

#[test]
fn parses_named_keys_and_aliases() {
    assert_eq!(parse_chord("escape").unwrap().key, "esc");
    assert_eq!(parse_chord("return").unwrap().key, "enter");
    assert_eq!(parse_chord("comma").unwrap().key, ",");
    assert_eq!(parse_chord("quote").unwrap().key, "'");
    assert_eq!(parse_chord("lbracket").unwrap().key, "[");
    assert_eq!(parse_chord("plus").unwrap().key, "+");
}

#[test]
fn trims_and_skips_empty_tokens() {
    let chord = parse_chord("  ctrl +  c ").unwrap();
    assert_eq!(chord.key, "c");
    assert!(chord.modifiers.ctrl);
}

#[test]
fn normalizes_function_key_leading_zeros() {
    assert_eq!(parse_chord("f01").unwrap().key, "f1");
    assert_eq!(parse_chord("F12").unwrap().key, "f12");
}

#[test]
fn accepts_single_non_ascii_characters() {
    assert_eq!(parse_chord("\u{e9}").unwrap().key, "\u{e9}");
    let chord = parse_chord("shift+\u{df}").unwrap();
    assert_eq!(chord.key, "\u{df}");
    assert!(chord.modifiers.shift);
    // two characters are still no key token, ASCII or not
    assert_eq!(parse_chord("\u{153}x").unwrap_err(), ChordError::UnknownKeyToken);
}

#[test]
fn rejects_bad_chords() {
    assert_eq!(parse_chord("").unwrap_err(), ChordError::MissingKey);
    assert_eq!(parse_chord("ctrl+shift").unwrap_err(), ChordError::MissingKey);
    assert_eq!(parse_chord("a+b").unwrap_err(), ChordError::MultipleKeys);
    assert_eq!(parse_chord("fx").unwrap_err(), ChordError::InvalidFunctionKey);
    assert_eq!(parse_chord("f0").unwrap_err(), ChordError::FunctionKeyOutOfRange);
    assert_eq!(parse_chord("f25").unwrap_err(), ChordError::FunctionKeyOutOfRange);
    assert_eq!(parse_chord("f999").unwrap_err(), ChordError::InvalidFunctionKey);
    assert_eq!(parse_chord("foo").unwrap_err(), ChordError::InvalidFunctionKey);
    assert_eq!(parse_chord("spaces bar").unwrap_err(), ChordError::UnknownKeyToken);
}

#[test]
fn compiles_chord_sets_in_order() {
    let entries = vec!["esc".to_string(), "ctrl+c".to_string()];
    let set = compile_chord_set(&entries, "quit").unwrap();
    assert_eq!(set.len(), 2);
    assert_eq!(set[0].key, "esc");
    assert_eq!(set[1].key, "c");
    assert!(set[1].modifiers.ctrl);
}

#[test]
fn compile_chord_set_reports_first_error() {
    let entries = vec!["esc".to_string(), "f99".to_string()];
    assert_eq!(compile_chord_set(&entries, "quit").unwrap_err(), ChordError::FunctionKeyOutOfRange);
}

#[test]
fn compiles_note_bindings() {
    let raw = vec![("a".to_string(), 60u8), ("s".to_string(), 62u8)];
    let compiled = compile_note_bindings(&raw).unwrap();
    assert_eq!(compiled.len(), 2);
    assert_eq!(compiled[0].0.key, "a");
    assert_eq!(compiled[0].1, 60);
    assert_eq!(compiled[1].1, 62);
}

#[test]
fn rejects_out_of_range_note_binding() {
    let raw = vec![("a".to_string(), 200u8)];
    assert_eq!(compile_note_bindings(&raw).unwrap_err(), BindingError::NoteOutOfRange(0));
}

#[test]
fn rejects_duplicate_binding() {
    // "A" and "a" normalize to the same chord
    let raw = vec![("a".to_string(), 60u8), ("A".to_string(), 61u8)];
    assert_eq!(compile_note_bindings(&raw).unwrap_err(), BindingError::DuplicateBinding(1));
}

#[test]
fn rejects_invalid_chord_in_bindings() {
    let raw = vec![("a+b".to_string(), 60u8)];
    assert_eq!(
        compile_note_bindings(&raw).unwrap_err(),
        BindingError::InvalidChord(0, ChordError::MultipleKeys)
    );
}
