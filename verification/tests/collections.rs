use gnd::{Collection, CollectionSpec, Config, Field, Record, Subfield};

fn field(tag: &str, subs: &[(char, &str)]) -> Field {
    Field {
        tag: tag.to_string(),
        subfields: subs
            .iter()
            .map(|(code, value)| Subfield { code: *code, value: value.to_string() })
            .collect(),
    }
}

fn member_record(idn: &str, group: &str) -> Record {
    Record {
        fields: vec![field("003@", &[('0', idn)]), field("044K", &[('9', group)])],
    }
}

fn spec_with_minimum(minimum: Option<usize>) -> CollectionSpec {
    CollectionSpec {
        name: "subjects".to_string(),
        base_uri: "http://example.org/collection#".to_string(),
        path: "044K.9".to_string(),
        filter: None,
        minimum,
        maximum: None,
    }
}

#[test]
fn collection_groups_members_by_key() {
    let mut collection = Collection::try_new(&spec_with_minimum(None)).unwrap();
    let config = Config::default();
    collection.add_record(&member_record("1", "g1"), &config);
    collection.add_record(&member_record("2", "g1"), &config);
    collection.add_record(&member_record("3", "g2"), &config);

    let items = collection.items();
    assert_eq!(items.len(), 2);
    assert_eq!(items[0].0, "http://example.org/collection#g1");
    assert_eq!(
        items[0].1,
        vec![
            "http://d-nb.info/gnd/1".to_string(),
            "http://d-nb.info/gnd/2".to_string(),
        ]
    );
    assert_eq!(items[1].0, "http://example.org/collection#g2");
    assert_eq!(items[1].1, vec!["http://d-nb.info/gnd/3".to_string()]);
}

#[test]
fn projection_drops_groups_below_the_minimum() {
    let mut collection = Collection::try_new(&spec_with_minimum(Some(2))).unwrap();
    let config = Config::default();
    collection.add_record(&member_record("1", "g1"), &config);
    collection.add_record(&member_record("2", "g1"), &config);
    collection.add_record(&member_record("3", "g2"), &config);

    // Both groups were tracked during accumulation.
    assert_eq!(collection.items().len(), 2);

    // Only the group with two members survives the projection.
    let table = collection.projection();
    assert_eq!(table.len(), 1);
    assert_eq!(table[0].0, "http://example.org/collection#g1");
    assert_eq!(table[0].1.len(), 2);
}

#[test]
fn projection_drops_groups_above_the_maximum() {
    let mut spec = spec_with_minimum(None);
    spec.maximum = Some(1);
    let mut collection = Collection::try_new(&spec).unwrap();
    let config = Config::default();
    collection.add_record(&member_record("1", "g1"), &config);
    collection.add_record(&member_record("2", "g1"), &config);
    collection.add_record(&member_record("3", "g2"), &config);

    let table = collection.projection();
    assert_eq!(table.len(), 1);
    assert_eq!(table[0].0, "http://example.org/collection#g2");
}

#[test]
fn collection_filter_keeps_only_matching_keys() {
    let mut spec = spec_with_minimum(None);
    spec.filter = Some("^A".to_string());
    let mut collection = Collection::try_new(&spec).unwrap();
    let config = Config::default();
    collection.add_record(&member_record("1", "Alpha"), &config);
    collection.add_record(&member_record("2", "Beta"), &config);

    assert_eq!(collection.items().len(), 1);
    assert_eq!(collection.items()[0].0, "http://example.org/collection#Alpha");
}

#[test]
fn record_without_key_contributes_nothing() {
    let mut collection = Collection::try_new(&spec_with_minimum(None)).unwrap();
    let config = Config::default();
    let record = Record { fields: vec![field("044K", &[('9', "g1")])] };
    collection.add_record(&record, &config);
    assert_eq!(collection.items().len(), 0);
}

#[test]
fn duplicate_members_are_appended() {
    let mut collection = Collection::try_new(&spec_with_minimum(None)).unwrap();
    let config = Config::default();
    let record = Record {
        fields: vec![
            field("003@", &[('0', "1")]),
            field("044K", &[('9', "g1")]),
            field("044K", &[('9', "g1")]),
        ],
    };
    collection.add_record(&record, &config);
    assert_eq!(collection.items().len(), 1);
    assert_eq!(collection.items()[0].1.len(), 2);
}

#[test]
fn collection_accessors_reflect_the_description() {
    let collection = Collection::try_new(&spec_with_minimum(Some(2))).unwrap();
    assert_eq!(collection.name(), "subjects");
    assert_eq!(collection.base_uri(), "http://example.org/collection#");
    assert_eq!(collection.path().tag, "044K");
    assert_eq!(collection.path().code, '9');
    assert_eq!(*collection.minimum(), Some(2));
    assert_eq!(*collection.maximum(), None);
}

#[test]
fn bad_path_is_rejected() {
    let mut spec = spec_with_minimum(None);
    spec.path = "044K".to_string();
    assert_eq!(Collection::try_new(&spec).unwrap_err(), "Invalid path");

    spec.path = "044K.99".to_string();
    assert_eq!(Collection::try_new(&spec).unwrap_err(), "Invalid path");

    spec.path = ".9".to_string();
    assert_eq!(Collection::try_new(&spec).unwrap_err(), "Invalid path");
}

#[test]
fn bad_filter_is_rejected() {
    let mut spec = spec_with_minimum(None);
    spec.filter = Some("(".to_string());
    assert_eq!(Collection::try_new(&spec).unwrap_err(), "Invalid Regex");
}
