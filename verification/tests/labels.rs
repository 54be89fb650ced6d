use gnd::{normalize, SynKind, SynSet, Synonym, SynonymBuilder, TextPattern, TranslitChoice};

fn build_plain(builder: SynonymBuilder) -> Option<Synonym> {
    builder.build()
}

#[test]
fn test_synkind_to_string() {
    assert_eq!(SynKind::Preferred.as_str(), "preferred");
    assert_eq!(SynKind::Alternative.as_str(), "alternative");
    assert_eq!(SynKind::Hidden.as_str(), "hidden");
}

#[test]
fn builder_accumulates_fragments() {
    let owned = String::from("Doe");
    let synonym = Synonym::builder(SynKind::Preferred)
        .push(Some(&owned))
        .push_with_prefix(Some(&String::from("Jane")), ", ")
        .push_with_prefix(None, " ")
        .push(None)
        .build()
        .unwrap();
    assert_eq!(synonym.label(), "Doe, Jane");
    assert_eq!(*synonym.kind(), SynKind::Preferred);
}

#[test]
fn builder_empty_buffer_yields_nothing() {
    assert!(build_plain(Synonym::builder(SynKind::Preferred)).is_none());
}

#[test]
fn builder_applies_length_floor_in_bytes() {
    // Five bytes but four characters: the floor counts bytes.
    let kept = Synonym::builder(SynKind::Preferred)
        .min_length(5)
        .push_str("K\u{e4}se")
        .build();
    assert_eq!(kept.unwrap().label(), "K\u{e4}se");

    let dropped = Synonym::builder(SynKind::Preferred)
        .min_length(6)
        .push_str("K\u{e4}se")
        .build();
    assert!(dropped.is_none());
}

#[test]
fn builder_applies_exclusion_pattern() {
    let pattern = TextPattern::new("^Internal").unwrap();
    let dropped = Synonym::builder(SynKind::Alternative)
        .filter(Some(&pattern))
        .push_str("Internal name")
        .build();
    assert!(dropped.is_none());

    let kept = Synonym::builder(SynKind::Alternative)
        .filter(Some(&pattern))
        .push_str("Public name")
        .build();
    assert_eq!(kept.unwrap().label(), "Public name");
}

#[test]
fn builder_normalizes_composed_form() {
    let synonym = Synonym::builder(SynKind::Preferred)
        .translit(Some(&TranslitChoice::Nfc))
        .push_str("e\u{301}clat")
        .build()
        .unwrap();
    assert_eq!(synonym.label(), "\u{e9}clat");
}

#[test]
fn builder_normalizes_decomposed_form() {
    let synonym = Synonym::builder(SynKind::Preferred)
        .translit(Some(&TranslitChoice::Nfd))
        .push_str("\u{e9}clat")
        .build()
        .unwrap();
    assert_eq!(synonym.label(), "e\u{301}clat");
}

#[test]
fn builder_normalizes_compatibility_composed_form() {
    let synonym = Synonym::builder(SynKind::Preferred)
        .translit(Some(&TranslitChoice::Nfkc))
        .push_str("\u{fb01}ne")
        .build()
        .unwrap();
    assert_eq!(synonym.label(), "fine");
}

#[test]
fn builder_normalizes_compatibility_decomposed_form() {
    let synonym = Synonym::builder(SynKind::Preferred)
        .translit(Some(&TranslitChoice::Nfkd))
        .push_str("\u{fb01}ne caf\u{e9}")
        .build()
        .unwrap();
    assert_eq!(synonym.label(), "fine cafe\u{301}");
}

#[test]
fn normalization_is_idempotent() {
    let forms = [
        TranslitChoice::Nfc,
        TranslitChoice::Nfd,
        TranslitChoice::Nfkc,
        TranslitChoice::Nfkd,
    ];
    for form in forms.iter() {
        let once = normalize("e\u{301}clat \u{fb01}ne", Some(form));
        let twice = normalize(once.as_str(), Some(form));
        assert_eq!(once, twice);
    }
    let plain = normalize("anything", None);
    assert_eq!(plain, "anything");
}

#[test]
fn synonym_accessors_round_trip() {
    let synonym = Synonym::new(String::from("Berlin"), SynKind::Hidden);
    assert_eq!(synonym.label(), "Berlin");
    assert_eq!(*synonym.kind(), SynKind::Hidden);
}

#[test]
fn synset_collapses_equal_entries() {
    let mut set = SynSet::new();
    assert!(set.insert(Synonym::new(String::from("Doe, Jane"), SynKind::Preferred)));
    assert!(!set.insert(Synonym::new(String::from("Doe, Jane"), SynKind::Preferred)));
    assert!(set.insert(Synonym::new(String::from("Doe, Jane"), SynKind::Hidden)));
    assert!(set.insert(Synonym::new(String::from("Jane Doe"), SynKind::Hidden)));
    assert_eq!(set.len(), 3);
    assert!(set.contains(&Synonym::new(String::from("Doe, Jane"), SynKind::Hidden)));
}

#[test]
fn invalid_pattern_is_rejected() {
    assert!(TextPattern::new("(").is_none());
    assert!(TextPattern::new("^T[bfgpsu]").is_some());
}
