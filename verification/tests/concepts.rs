use gnd::{
    Concept, ConceptKind, Config, Error, Field, Record, RelationKind, Subfield, SynKind, Synonym,
};

fn field(tag: &str, subs: &[(char, &str)]) -> Field {
    Field {
        tag: tag.to_string(),
        subfields: subs
            .iter()
            .map(|(code, value)| Subfield { code: *code, value: value.to_string() })
            .collect(),
    }
}

fn has_label(concept: &Concept, text: &str, kind: SynKind) -> bool {
    concept.synset().contains(&Synonym::new(text.to_string(), kind))
}

#[test]
fn test_kind_to_string() {
    assert_eq!(ConceptKind::Person.as_str(), "Person");
    assert_eq!(ConceptKind::CorporateBody.as_str(), "Corporate Body");
    assert_eq!(ConceptKind::Conference.as_str(), "Conference");
    assert_eq!(ConceptKind::Place.as_str(), "Place");
    assert_eq!(ConceptKind::SubjectTerm.as_str(), "Subject term");
    assert_eq!(ConceptKind::Work.as_str(), "Work");
}

#[test]
fn person_record_yields_preferred_and_inverted_labels() {
    let record = Record {
        fields: vec![
            field("002@", &[('0', "Tp1")]),
            field("003@", &[('0', "118540238")]),
            field("028A", &[('a', "Smith"), ('d', "John")]),
        ],
    };
    let concept = Concept::from_record(&record, &Config::default()).unwrap();
    assert_eq!(*concept.kind(), ConceptKind::Person);
    assert_eq!(concept.uri(), "http://d-nb.info/gnd/118540238");
    assert_eq!(concept.synset().len(), 2);
    assert!(has_label(&concept, "Smith, John", SynKind::Preferred));
    assert!(has_label(&concept, "John Smith", SynKind::Hidden));
}

#[test]
fn person_biographical_dates_decorate_the_preferred_label() {
    let record = Record {
        fields: vec![
            field("002@", &[('0', "Tp1")]),
            field("003@", &[('0', "1")]),
            field("028A", &[('a', "Doe"), ('d', "Jane")]),
            field("060R", &[('a', "1900"), ('b', "1980"), ('4', "datl")]),
        ],
    };
    let concept = Concept::from_record(&record, &Config::default()).unwrap();
    assert!(has_label(&concept, "Doe, Jane (1900-1980)", SynKind::Preferred));
    assert!(has_label(&concept, "Doe, Jane", SynKind::Hidden));
    assert!(has_label(&concept, "Jane Doe", SynKind::Hidden));
    assert_eq!(concept.synset().len(), 3);
}

#[test]
fn person_pseudonym_combines_numeration_and_title() {
    let record = Record {
        fields: vec![
            field("002@", &[('0', "Tp1")]),
            field("003@", &[('0', "2")]),
            field("028A", &[('P', "Galla Placidia"), ('n', "I."), ('l', "Empress")]),
        ],
    };
    let concept = Concept::from_record(&record, &Config::default()).unwrap();
    assert!(has_label(&concept, "Galla Placidia (I., Empress)", SynKind::Preferred));
}

#[test]
fn person_bare_initial_is_suppressed_when_configured() {
    let mut config = Config::default();
    config.concept.person_no_initials = Some(true);
    let record = Record {
        fields: vec![
            field("002@", &[('0', "Tp1")]),
            field("003@", &[('0', "3")]),
            field("028A", &[('a', "Doe"), ('d', "J.")]),
        ],
    };
    let concept = Concept::from_record(&record, &config).unwrap();
    assert_eq!(concept.synset().len(), 0);

    let unsuppressed = Concept::from_record(&record, &Config::default()).unwrap();
    assert!(has_label(&unsuppressed, "Doe, J.", SynKind::Preferred));
}

#[test]
fn person_alternative_labels_are_inverted_too() {
    let record = Record {
        fields: vec![
            field("002@", &[('0', "Tp1")]),
            field("003@", &[('0', "4")]),
            field("028A", &[('a', "Twain"), ('d', "Mark")]),
            field("028@", &[('a', "Clemens"), ('d', "Samuel")]),
        ],
    };
    let concept = Concept::from_record(&record, &Config::default()).unwrap();
    assert!(has_label(&concept, "Clemens, Samuel", SynKind::Alternative));
    assert!(has_label(&concept, "Samuel Clemens", SynKind::Hidden));
}

#[test]
fn corporate_body_strips_marker_and_formats_qualifiers() {
    let record = Record {
        fields: vec![
            field("002@", &[('0', "Tb1")]),
            field("003@", &[('0', "5")]),
            field("029A", &[('a', "@Library"), ('g', "Berlin"), ('b', "Music"), ('n', "2")]),
        ],
    };
    let concept = Concept::from_record(&record, &Config::default()).unwrap();
    assert_eq!(*concept.kind(), ConceptKind::CorporateBody);
    assert!(has_label(&concept, "Library (Berlin) / Music, 2", SynKind::Preferred));
}

#[test]
fn conference_flushes_pending_parenthetical() {
    let record = Record {
        fields: vec![
            field("002@", &[('0', "Tf1")]),
            field("003@", &[('0', "6")]),
            field("030A", &[('a', "Congress"), ('n', "5"), ('d', "2020"), ('g', "Berlin")]),
        ],
    };
    let concept = Concept::from_record(&record, &Config::default()).unwrap();
    assert_eq!(*concept.kind(), ConceptKind::Conference);
    assert_eq!(concept.synset().len(), 1);
    // The pending number/date group flushes, then the location stands in a
    // parenthetical of its own.
    assert!(has_label(&concept, "Congress (5, 2020) (Berlin)", SynKind::Preferred));
}

#[test]
fn conference_unit_flushes_before_suffix() {
    let record = Record {
        fields: vec![
            field("002@", &[('0', "Tf1")]),
            field("003@", &[('0', "7")]),
            field("030A", &[('a', "Assembly"), ('n', "3"), ('x', "Section")]),
        ],
    };
    let concept = Concept::from_record(&record, &Config::default()).unwrap();
    assert!(has_label(&concept, "Assembly (3) / Section", SynKind::Preferred));
}

#[test]
fn place_formats_qualifier_and_subdivision() {
    let record = Record {
        fields: vec![
            field("002@", &[('0', "Tg1")]),
            field("003@", &[('0', "8")]),
            field("065A", &[('a', "@Berlin"), ('z', "West"), ('x', "Mitte")]),
        ],
    };
    let concept = Concept::from_record(&record, &Config::default()).unwrap();
    assert_eq!(*concept.kind(), ConceptKind::Place);
    assert!(has_label(&concept, "Berlin (West) / Mitte", SynKind::Preferred));
}

#[test]
fn subject_term_without_term_subfield_yields_no_labels() {
    let record = Record {
        fields: vec![
            field("002@", &[('0', "Ts1")]),
            field("003@", &[('0', "9")]),
            field("041A", &[('g', "qualifier only")]),
        ],
    };
    let concept = Concept::from_record(&record, &Config::default()).unwrap();
    assert_eq!(*concept.kind(), ConceptKind::SubjectTerm);
    assert_eq!(concept.synset().len(), 0);
    assert!(concept.relations().is_empty());
}

#[test]
fn subject_term_joins_qualifiers_and_facets() {
    let record = Record {
        fields: vec![
            field("002@", &[('0', "Ts1")]),
            field("003@", &[('0', "10")]),
            field(
                "041A",
                &[('a', "Music"), ('g', "Baroque"), ('g', "Court"), ('x', "History"), ('x', "Sources")],
            ),
        ],
    };
    let concept = Concept::from_record(&record, &Config::default()).unwrap();
    assert!(has_label(&concept, "Music (Baroque, Court) / History / Sources", SynKind::Preferred));
}

#[test]
fn work_title_carries_author_prefix() {
    let record = Record {
        fields: vec![
            field("002@", &[('0', "Tu1")]),
            field("003@", &[('0', "11")]),
            field("022A", &[('a', "@Faust"), ('h', "Part one")]),
            field("028R", &[('9', "100"), ('4', "aut1"), ('a', "Goethe"), ('d', "Johann")]),
        ],
    };
    let concept = Concept::from_record(&record, &Config::default()).unwrap();
    assert_eq!(*concept.kind(), ConceptKind::Work);
    assert!(has_label(&concept, "Goethe, Johann : Faust, Part one", SynKind::Preferred));
    assert_eq!(concept.relations().len(), 1);
    assert_eq!(concept.relations()[0].uri(), "http://d-nb.info/gnd/100");
    assert_eq!(*concept.relations()[0].kind(), RelationKind::Related);
}

#[test]
fn work_title_without_marked_entity_stands_alone() {
    let record = Record {
        fields: vec![
            field("002@", &[('0', "Tu1")]),
            field("003@", &[('0', "12")]),
            field("022A", &[('a', "Faust"), ('n', "1")]),
            field("028R", &[('9', "100"), ('4', "adue"), ('a', "Editor")]),
        ],
    };
    let concept = Concept::from_record(&record, &Config::default()).unwrap();
    assert!(has_label(&concept, "Faust 1", SynKind::Preferred));
}

#[test]
fn relation_requires_reference_and_role_subfields() {
    let record = Record {
        fields: vec![
            field("002@", &[('0', "Ts1")]),
            field("003@", &[('0', "13")]),
            field("041A", &[('a', "Term")]),
            field("041R", &[('9', "200")]),
            field("041R", &[('4', "obal")]),
            field("041R", &[('9', "201"), ('4', "obal")]),
            field("041R", &[('9', "202"), ('4', "vbal")]),
        ],
    };
    let concept = Concept::from_record(&record, &Config::default()).unwrap();
    assert_eq!(concept.relations().len(), 2);
    assert_eq!(concept.relations()[0].uri(), "http://d-nb.info/gnd/201");
    assert_eq!(*concept.relations()[0].kind(), RelationKind::Broader);
    assert_eq!(concept.relations()[1].uri(), "http://d-nb.info/gnd/202");
    assert_eq!(*concept.relations()[1].kind(), RelationKind::Related);
}

#[test]
fn duplicate_relations_are_kept_in_order() {
    let record = Record {
        fields: vec![
            field("002@", &[('0', "Ts1")]),
            field("003@", &[('0', "14")]),
            field("041A", &[('a', "Term")]),
            field("041R", &[('9', "300"), ('4', "vbal")]),
            field("041R", &[('9', "300"), ('4', "vbal")]),
        ],
    };
    let concept = Concept::from_record(&record, &Config::default()).unwrap();
    assert_eq!(concept.relations().len(), 2);
    assert_eq!(concept.relations()[0].uri(), concept.relations()[1].uri());
}

#[test]
fn missing_record_key_is_an_error() {
    let record = Record {
        fields: vec![field("002@", &[('0', "Tp1")]), field("028A", &[('a', "Smith")])],
    };
    let err = Concept::from_record(&record, &Config::default()).unwrap_err();
    assert!(matches!(err, Error::Concept(_)));
    assert_eq!(err.message(), "could not find valid idn");
}

#[test]
fn missing_type_code_is_an_error() {
    let record = Record {
        fields: vec![field("003@", &[('0', "15")]), field("028A", &[('a', "Smith")])],
    };
    let err = Concept::from_record(&record, &Config::default()).unwrap_err();
    assert_eq!(err.message(), "missing type code");

    let short = Record { fields: vec![field("002@", &[('0', "T")])] };
    let err = Concept::from_record(&short, &Config::default()).unwrap_err();
    assert_eq!(err.message(), "missing type code");
}

#[test]
fn unknown_type_code_is_an_error() {
    let record = Record {
        fields: vec![field("002@", &[('0', "Tx1")]), field("003@", &[('0', "16")])],
    };
    let err = Concept::from_record(&record, &Config::default()).unwrap_err();
    assert!(matches!(err, Error::Concept(_)));
    assert_eq!(err.message(), "unknown concept kind 'x'");
}

#[test]
fn missing_primary_field_is_an_error() {
    let record = Record {
        fields: vec![field("002@", &[('0', "Tp1")]), field("003@", &[('0', "17")])],
    };
    let err = Concept::from_record(&record, &Config::default()).unwrap_err();
    assert!(matches!(err, Error::Concept(_)));
    assert_eq!(err.message(), "missing primary name field");
}

#[test]
fn unusable_exclusion_pattern_is_an_error() {
    let mut config = Config::default();
    config.concept.synonym_filter = Some("(".to_string());
    let record = Record {
        fields: vec![
            field("002@", &[('0', "Tp1")]),
            field("003@", &[('0', "18")]),
            field("028A", &[('a', "Smith")]),
        ],
    };
    let err = Concept::from_record(&record, &config).unwrap_err();
    assert!(matches!(err, Error::Config(_)));
    assert_eq!(err.message(), "invalid synonym filter");
}

#[test]
fn configured_policy_reaches_every_label() {
    let mut config = Config::default();
    config.concept.min_synonym_length = Some(5);
    config.concept.synonym_filter = Some("^Secret".to_string());
    let record = Record {
        fields: vec![
            field("002@", &[('0', "Ts1")]),
            field("003@", &[('0', "19")]),
            field("041A", &[('a', "Art")]),
            field("041@", &[('a', "Secret doctrine")]),
            field("041@", &[('a', "Painting")]),
        ],
    };
    let concept = Concept::from_record(&record, &config).unwrap();
    assert_eq!(concept.synset().len(), 1);
    assert!(has_label(&concept, "Painting", SynKind::Alternative));
}

#[test]
fn inversion_uses_the_last_comma() {
    let record = Record {
        fields: vec![
            field("002@", &[('0', "Tp1")]),
            field("003@", &[('0', "21")]),
            field("028A", &[('a', "a, b"), ('d', "c")]),
        ],
    };
    let concept = Concept::from_record(&record, &Config::default()).unwrap();
    assert!(has_label(&concept, "a, b, c", SynKind::Preferred));
    // The segment before the last comma reaches back to the earlier comma.
    assert!(has_label(&concept, "c  b", SynKind::Hidden));
}

#[test]
fn parenthesis_blocks_the_inversion() {
    let record = Record {
        fields: vec![
            field("002@", &[('0', "Tp1")]),
            field("003@", &[('0', "22")]),
            field("028A", &[('a', "Doe (Jr.)"), ('d', "Jane")]),
        ],
    };
    let concept = Concept::from_record(&record, &Config::default()).unwrap();
    assert!(has_label(&concept, "Doe (Jr.), Jane", SynKind::Preferred));
    assert_eq!(concept.synset().len(), 1);
}

#[test]
fn multibyte_initial_is_not_suppressed() {
    // The bare-initial rule counts bytes: a two-character forename whose
    // first character is not ASCII is three bytes long and stays.
    let mut config = Config::default();
    config.concept.person_no_initials = Some(true);
    let record = Record {
        fields: vec![
            field("002@", &[('0', "Tp1")]),
            field("003@", &[('0', "23")]),
            field("028A", &[('a', "Doe"), ('d', "\u{c4}.")]),
        ],
    };
    let concept = Concept::from_record(&record, &config).unwrap();
    assert!(has_label(&concept, "Doe, \u{c4}.", SynKind::Preferred));
}

#[test]
fn configured_normalization_reaches_the_labels() {
    let mut config = Config::default();
    config.concept.translit = Some(gnd::TranslitChoice::Nfc);
    let record = Record {
        fields: vec![
            field("002@", &[('0', "Tg1")]),
            field("003@", &[('0', "24")]),
            field("065A", &[('a', "Ste\u{301}phanie")]),
        ],
    };
    let concept = Concept::from_record(&record, &config).unwrap();
    assert!(has_label(&concept, "St\u{e9}phanie", SynKind::Preferred));
}

#[test]
fn derived_hidden_label_respects_the_exclusion_pattern() {
    let mut config = Config::default();
    config.concept.synonym_filter = Some("^John".to_string());
    let record = Record {
        fields: vec![
            field("002@", &[('0', "Tp1")]),
            field("003@", &[('0', "25")]),
            field("028A", &[('a', "Smith"), ('d', "John")]),
        ],
    };
    let concept = Concept::from_record(&record, &config).unwrap();
    // The preferred label stays; the derived "John Smith" matches the
    // pattern and is dropped like any other label.
    assert_eq!(concept.synset().len(), 1);
    assert!(has_label(&concept, "Smith, John", SynKind::Preferred));
}

#[test]
fn derived_hidden_label_respects_the_length_floor() {
    let mut config = Config::default();
    config.concept.min_synonym_length = Some(9);
    let record = Record {
        fields: vec![
            field("002@", &[('0', "Tp1")]),
            field("003@", &[('0', "26")]),
            field("028A", &[('a', "Doe"), ('d', "Jane")]),
        ],
    };
    let concept = Concept::from_record(&record, &config).unwrap();
    // "Doe, Jane" is nine bytes and stays; the swapped "Jane Doe" is eight
    // bytes and falls below the floor.
    assert_eq!(concept.synset().len(), 1);
    assert!(has_label(&concept, "Doe, Jane", SynKind::Preferred));
}

#[test]
fn decorated_label_respects_the_exclusion_pattern() {
    let mut config = Config::default();
    config.concept.synonym_filter = Some("1900".to_string());
    let record = Record {
        fields: vec![
            field("002@", &[('0', "Tp1")]),
            field("003@", &[('0', "27")]),
            field("028A", &[('a', "Doe"), ('d', "Jane")]),
            field("060R", &[('a', "1900"), ('b', "1980"), ('4', "datl")]),
        ],
    };
    let concept = Concept::from_record(&record, &config).unwrap();
    // The decorated form matches the pattern and is dropped, and with it the
    // hidden duplicate of the undecorated text; the inversion stays.
    assert_eq!(concept.synset().len(), 1);
    assert!(has_label(&concept, "Jane Doe", SynKind::Hidden));
}

#[test]
fn prefixed_work_label_respects_the_exclusion_pattern() {
    let mut config = Config::default();
    config.concept.synonym_filter = Some("^Goethe".to_string());
    let record = Record {
        fields: vec![
            field("002@", &[('0', "Tu1")]),
            field("003@", &[('0', "28")]),
            field("022A", &[('a', "Faust")]),
            field("028R", &[('4', "aut1"), ('a', "Goethe"), ('d', "Johann")]),
        ],
    };
    let concept = Concept::from_record(&record, &config).unwrap();
    // The prefixed form matches the pattern and is dropped; the unprefixed
    // title is not added in its place.
    assert_eq!(concept.synset().len(), 0);
}

#[test]
fn concept_label_set_never_holds_duplicates() {
    let mut concept = Concept::new(
        String::from("http://d-nb.info/gnd/20"),
        Vec::new(),
        ConceptKind::Person,
    );
    assert!(concept.add_synonym(Synonym::new(String::from("A"), SynKind::Preferred)));
    assert!(!concept.add_synonym(Synonym::new(String::from("A"), SynKind::Preferred)));
    assert!(concept.add_synonym(Synonym::new(String::from("A"), SynKind::Hidden)));
    assert_eq!(concept.synset().len(), 2);
}
