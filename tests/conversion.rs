use osm_to_sql::argument::{ArgumentError, Arguments, get_arguments_help, parse_row_limit};
use osm_to_sql::dispatcher::{Dispatcher, Element};
use osm_to_sql::error::{ConvertError, Field};
use osm_to_sql::models::{Attr, EntityRef, MainInfo, Model, Node, Record, RelationMember, UsedTag, WayNode};
use osm_to_sql::pipeline::{Settings, collect_records, convert};
use osm_to_sql::schema::Table;
use osm_to_sql::sql_file::SqlFile;
use osm_to_sql::value::SqlType;

fn el(name: &str, attrs: &[(&str, &str)]) -> Element {
    Element {
        name: name.to_string(),
        attributes: attrs
            .iter()
            .map(|(k, v)| Attr { name: k.to_string(), value: v.to_string() })
            .collect(),
    }
}

fn settings(max: usize) -> Settings {
    Settings { maximum_rows_per_query: max, varchar_length: 255, ignore_duplicates: true }
}

fn text(b: &[u8]) -> String {
    String::from_utf8(b.to_vec()).unwrap()
}

fn body(out: &[u8], t: Table) -> String {
    let header = text(&t.get_create_table_query(255));
    let all = text(out);
    assert!(all.starts_with(&header));
    all[header.len()..].to_string()
}

fn sample_document() -> Vec<Element> {
    vec![
        el("osm", &[("version", "0.6")]),
        el("node", &[("id", "1"), ("lat", "51.5073509"), ("lon", "-0.1277583")]),
        el("way", &[("id", "10"), ("user", "ann"), ("uid", "7")]),
        el("nd", &[("ref", "1")]),
        el("nd", &[("ref", "1")]),
        el("tag", &[("k", "highway"), ("v", "residential")]),
        el("relation", &[("id", "100"), ("visible", "false")]),
        el("member", &[("type", "way"), ("ref", "10"), ("role", "outer")]),
        el("tag", &[("k", "type"), ("v", "multipolygon")]),
    ]
}

#[test]
fn duplicated_way_points_and_way_member() {
    let outs = convert(&sample_document(), settings(400)).unwrap();
    assert_eq!(outs.len(), 7);
    assert_eq!(
        body(&outs[5], Table::WayNodes),
        ";\nINSERT IGNORE INTO way_nodes (way_id,node_id) VALUES (10,1),(10,1)"
    );
    assert_eq!(
        body(&outs[6], Table::RelationMembers),
        ";\nINSERT IGNORE INTO relation_members (relation_id,node_id,way_id,sub_relation_id,role) VALUES (100,NULL,10,NULL,\"outer\")"
    );
}

#[test]
fn entity_tables_hold_every_column() {
    let outs = convert(&sample_document(), settings(400)).unwrap();
    assert_eq!(
        body(&outs[0], Table::Nodes),
        ";\nINSERT IGNORE INTO nodes (id,lat,lng,version,changeset,user,uid,visible,timestamp) VALUES (1,51.5073509,-0.1277583,8,0,\"anonymous\",0,1,\"2011-01-12T14:23:49Z\")"
    );
    assert_eq!(
        body(&outs[1], Table::Ways),
        ";\nINSERT IGNORE INTO ways (id,version,changeset,user,uid,visible,timestamp) VALUES (10,8,0,\"ann\",7,1,\"2011-01-12T14:23:49Z\")"
    );
    assert_eq!(
        body(&outs[2], Table::Relations),
        ";\nINSERT IGNORE INTO relations (id,version,changeset,user,uid,visible,timestamp) VALUES (100,8,0,\"anonymous\",0,0,\"2011-01-12T14:23:49Z\")"
    );
}

#[test]
fn tag_values_reference_their_owner() {
    let outs = convert(&sample_document(), settings(400)).unwrap();
    assert_eq!(
        body(&outs[3], Table::Tags),
        ";\nINSERT IGNORE INTO tags (id,name) VALUES (0,\"highway\"),(1,\"type\")"
    );
    assert_eq!(
        body(&outs[4], Table::RefTags),
        ";\nINSERT IGNORE INTO ref_tags (tag_id,node_id,relation_id,way_id,value) VALUES (0,NULL,NULL,10,\"residential\"),(1,NULL,100,NULL,\"multipolygon\")"
    );
}

#[test]
fn tag_without_value_is_skipped() {
    let mut d = Dispatcher::new();
    d.handle(&el("node", &[("id", "5")])).unwrap();
    let recs = d.handle(&el("tag", &[("k", "name")])).unwrap();
    assert!(recs.is_empty());
    let recs = d.handle(&el("tag", &[("v", "x")])).unwrap();
    assert!(recs.is_empty());
    // the skipped key took no id
    let recs = d.handle(&el("tag", &[("k", "other"), ("v", "y")])).unwrap();
    assert_eq!(recs.len(), 2);
    match &recs[0] {
        Record::Tag(t) => {
            assert_eq!(t.id, 0);
            assert_eq!(t.name, "other");
        }
        other => panic!("unexpected record {:?}", other),
    }
}

#[test]
fn way_point_without_reference_stops_the_run() {
    let mut doc = sample_document();
    doc.insert(4, el("nd", &[]));
    assert_eq!(
        convert(&doc, settings(400)),
        Err(ConvertError::MissingAttribute(Field::Ref))
    );
    assert_eq!(
        collect_records(&doc).map(|r| r.len()),
        Err(ConvertError::MissingAttribute(Field::Ref))
    );
}

#[test]
fn two_runs_give_identical_output() {
    let a = convert(&sample_document(), settings(1)).unwrap();
    let b = convert(&sample_document(), settings(1)).unwrap();
    assert_eq!(a, b);
}

#[test]
fn tag_ids_follow_first_sight() {
    let mut d = Dispatcher::new();
    d.handle(&el("way", &[("id", "3")])).unwrap();
    let mut ids = Vec::new();
    let mut new_names = Vec::new();
    for k in ["b", "a", "b", "c", "a"] {
        for r in d.handle(&el("tag", &[("k", k), ("v", "1")])).unwrap() {
            match r {
                Record::Tag(t) => new_names.push((t.id, t.name)),
                Record::UsedTag(u) => {
                    assert_eq!(u.owner, EntityRef::Way(3));
                    ids.push(u.tag_id)
                }
                other => panic!("unexpected record {:?}", other),
            }
        }
    }
    assert_eq!(ids, vec![0, 1, 0, 2, 1]);
    assert_eq!(
        new_names,
        vec![(0, "b".to_string()), (1, "a".to_string()), (2, "c".to_string())]
    );
}

#[test]
fn one_reference_column_per_row() {
    let u = UsedTag { tag_id: 4, value: "v".to_string(), owner: EntityRef::Relation(9) };
    let row = u.get_data_set();
    assert!(matches!(row[1], SqlType::Null));
    assert!(matches!(row[2], SqlType::BigInt(9)));
    assert!(matches!(row[3], SqlType::Null));
    let m = RelationMember { member: EntityRef::Relation(8), relation_id: 2, role: String::new() };
    let row = m.get_data_set();
    assert!(matches!(row[1], SqlType::Null));
    assert!(matches!(row[2], SqlType::Null));
    assert!(matches!(row[3], SqlType::BigInt(8)));
    let m = RelationMember { member: EntityRef::Node(8), relation_id: 2, role: String::new() };
    let row = m.get_data_set();
    assert!(matches!(row[1], SqlType::BigInt(8)));
    assert!(matches!(row[2], SqlType::Null));
    assert!(matches!(row[3], SqlType::Null));
}

#[test]
fn batches_hold_at_most_the_maximum() {
    let (mut f, header) = SqlFile::new(Table::WayNodes, 2, false, 255);
    let mut out = header.clone();
    for i in 0..5 {
        let chunk = f.write_record(&Record::WayNode(WayNode { way_id: 1, node_id: i }));
        out.extend_from_slice(&chunk);
    }
    let all = text(&out);
    let body = &all[header.len()..];
    assert_eq!(
        body,
        ";\nINSERT INTO way_nodes (way_id,node_id) VALUES (1,0),(1,1);\nINSERT INTO way_nodes (way_id,node_id) VALUES (1,2),(1,3);\nINSERT INTO way_nodes (way_id,node_id) VALUES (1,4)"
    );
    assert_eq!(body.matches("INSERT").count(), 3);
    assert_eq!(body.matches('(').count() - 3, 5);
}

#[test]
fn header_written_once_with_text_length() {
    let (mut f, header) = SqlFile::new(Table::Tags, 10, true, 64);
    assert_eq!(
        text(&header),
        "DROP TABLE IF EXISTS tags;\nCREATE TABLE tags (id INTEGER,name VARCHAR(64),CONSTRAINT tags_pk PRIMARY KEY(id))"
    );
    let c1 = f.write(&vec![SqlType::Int(0), SqlType::Varchar("a".to_string())]);
    let c2 = f.write(&vec![SqlType::Int(1), SqlType::Varchar("b".to_string())]);
    assert_eq!(text(&c1), ";\nINSERT IGNORE INTO tags (id,name) VALUES (0,\"a\")");
    assert_eq!(text(&c2), ",(1,\"b\")");
}

#[test]
fn text_values_are_escaped() {
    let mut out = Vec::new();
    SqlType::Varchar("say \"hi\" \\ bye".to_string()).push_text(&mut out);
    assert_eq!(text(&out), "\"say \\\"hi\\\" \\\\ bye\"");
    let mut out = Vec::new();
    SqlType::Null.push_text(&mut out);
    SqlType::Bool(false).push_text(&mut out);
    SqlType::BigInt(i64::MIN).push_text(&mut out);
    SqlType::Int(-42).push_text(&mut out);
    assert_eq!(text(&out), "NULL0-9223372036854775808-42");
}

#[test]
fn integer_attributes_follow_their_width() {
    let mut m = MainInfo::default();
    assert_eq!(m.set_attribute("id".into(), "-9223372036854775808".into()), Ok(true));
    assert_eq!(m.id, i64::MIN);
    assert_eq!(
        m.set_attribute("id".into(), "9223372036854775808".into()),
        Err(ConvertError::MalformedAttribute(Field::Id))
    );
    assert_eq!(m.set_attribute("version".into(), "+12".into()), Ok(true));
    assert_eq!(m.version, 12);
    assert_eq!(
        m.set_attribute("version".into(), "40000".into()),
        Err(ConvertError::MalformedAttribute(Field::Version))
    );
    assert_eq!(
        m.set_attribute("changeset".into(), "".into()),
        Err(ConvertError::MalformedAttribute(Field::Changeset))
    );
    assert_eq!(
        m.set_attribute("uid".into(), "-".into()),
        Err(ConvertError::MalformedAttribute(Field::Uid))
    );
    assert_eq!(m.set_attribute("colour".into(), "red".into()), Ok(false));
}

#[test]
fn visibility_is_true_or_false() {
    let mut m = MainInfo::default();
    assert!(m.visible);
    assert_eq!(m.set_attribute("visible".into(), "false".into()), Ok(true));
    assert!(!m.visible);
    assert_eq!(
        m.set_attribute("visible".into(), "yes".into()),
        Err(ConvertError::MalformedAttribute(Field::Visible))
    );
}

#[test]
fn defaults_of_an_entity() {
    let m = MainInfo::default();
    assert_eq!(m.id, 0);
    assert_eq!(m.version, 8);
    assert_eq!(m.changeset, 0);
    assert_eq!(m.uid, 0);
    assert_eq!(m.user, "anonymous");
    assert_eq!(m.timestamp, "2011-01-12T14:23:49Z");
}

#[test]
fn coordinates_are_kept_digit_for_digit() {
    let cases = [
        ("51.5073509", Some("51.5073509")),
        ("-0.5", Some("-0.5")),
        ("+3", Some("3")),
        (".5", Some("0.5")),
        ("5.", Some("5")),
        ("-.", None),
        ("", None),
        ("1e5", None),
        ("abc", None),
    ];
    for (input, expected) in cases {
        let mut n = Node::default();
        let r = n.set_attribute("lat".into(), input.into());
        match expected {
            Some(e) => {
                assert_eq!(r, Ok(true));
                let mut out = Vec::new();
                n.lat.push_text(&mut out);
                assert_eq!(text(&out), e);
            }
            None => assert_eq!(r, Err(ConvertError::MalformedAttribute(Field::Lat))),
        }
    }
    let mut n = Node::default();
    assert_eq!(
        n.set_attribute("lon".into(), "x".into()),
        Err(ConvertError::MalformedAttribute(Field::Lon))
    );
}

#[test]
fn member_attributes() {
    let mut d = Dispatcher::new();
    d.handle(&el("relation", &[("id", "6")])).unwrap();
    assert_eq!(
        d.handle(&el("member", &[("ref", "1")])).map(|r| r.len()),
        Err(ConvertError::MissingAttribute(Field::Type))
    );
    assert_eq!(
        d.handle(&el("member", &[("type", "node")])).map(|r| r.len()),
        Err(ConvertError::MissingAttribute(Field::Ref))
    );
    assert_eq!(
        d.handle(&el("member", &[("type", "area"), ("ref", "1")])).map(|r| r.len()),
        Err(ConvertError::MalformedAttribute(Field::Type))
    );
    assert_eq!(
        d.handle(&el("member", &[("type", "node"), ("ref", "x")])).map(|r| r.len()),
        Err(ConvertError::MalformedAttribute(Field::Ref))
    );
    let recs = d.handle(&el("member", &[("type", "relation"), ("ref", "2")])).unwrap();
    match &recs[0] {
        Record::RelationMember(m) => {
            assert_eq!(m.relation_id, 6);
            assert_eq!(m.member, EntityRef::Relation(2));
            assert_eq!(m.role, "");
        }
        other => panic!("unexpected record {:?}", other),
    }
}

#[test]
fn malformed_way_point_reference() {
    let mut d = Dispatcher::new();
    assert_eq!(
        d.handle(&el("nd", &[("ref", "1.5")])).map(|r| r.len()),
        Err(ConvertError::MalformedAttribute(Field::Ref))
    );
}

#[test]
fn unknown_elements_are_ignored() {
    let mut d = Dispatcher::new();
    assert!(d.handle(&el("bounds", &[("minlat", "1")])).unwrap().is_empty());
    let recs = d.handle(&el("node", &[("id", "2"), ("lat", "1"), ("foo", "bar")])).unwrap();
    assert_eq!(recs.len(), 1);
}

#[test]
fn malformed_entity_attribute_stops_the_run() {
    let doc = vec![el("node", &[("id", "1"), ("uid", "abc")])];
    assert_eq!(convert(&doc, settings(10)), Err(ConvertError::MalformedAttribute(Field::Uid)));
}

#[test]
fn attributes_from_raw_bytes() {
    let a = Attr::from_utf8(b"name".to_vec(), "caf\u{e9}".as_bytes().to_vec()).unwrap();
    assert_eq!(a.name, "name");
    assert_eq!(a.value, "caf\u{e9}");
    assert_eq!(
        Attr::from_utf8(b"name".to_vec(), vec![0xff, 0x41]).map(|a| a.value),
        Err(ConvertError::InvalidText)
    );
    let e = Element::from_utf8(b"way".to_vec(), vec![]).unwrap();
    assert_eq!(e.name, "way");
    assert!(Element::from_utf8(vec![0xc3], vec![]).is_err());
}

#[test]
fn empty_document_gives_headers_only() {
    let outs = convert(&vec![], settings(3)).unwrap();
    for (out, t) in outs.iter().zip(Table::all()) {
        assert_eq!(body(out, t), "");
    }
}

#[test]
fn arguments_from_words() {
    let words = |w: &[&str]| w.iter().map(|s| s.to_string()).collect::<Vec<String>>();
    let a = Arguments::parse_args(words(&["prog", "-i", "in.osm", "-d", "out", "-r", "50", "-g"]))
        .unwrap();
    assert_eq!(a.input, "in.osm");
    assert_eq!(a.output, "out");
    assert_eq!(a.maximum_rows, 50);
    assert_eq!(a.varchar_length, 255);
    assert!(a.no_ignore);
    assert!(!a.settings().ignore_duplicates);
    assert_eq!(
        Arguments::parse_args(words(&["prog", "-i", "in.osm"])).map(|a| a.help),
        Err(ArgumentError::MissingOutput)
    );
    assert_eq!(
        Arguments::parse_args(words(&["prog", "-d", "out"])).map(|a| a.help),
        Err(ArgumentError::MissingInput)
    );
    assert_eq!(
        Arguments::parse_args(words(&["prog", "-d", "out", "-i", "x", "-r", "0"])).map(|a| a.help),
        Err(ArgumentError::InvalidRowLimit)
    );
    assert_eq!(
        Arguments::parse_args(words(&["prog", "-d", "out", "-i", "x", "-l", "-1"])).map(|a| a.help),
        Err(ArgumentError::InvalidVarcharLength)
    );
    let h = Arguments::parse_args(words(&["prog", "-h"])).unwrap();
    assert!(h.help);
    assert_eq!(parse_row_limit("400"), Ok(400));
    assert!(get_arguments_help().contains("-r"));
}

#[test]
fn typed_writers_per_table() {
    let mut a = Arguments::default();
    a.maximum_rows = 1;
    a.no_ignore = true;
    let (mut f, header) = SqlFile::new_way_nodes_file(&a);
    assert!(text(&header).starts_with("DROP TABLE IF EXISTS way_nodes;\nCREATE TABLE way_nodes ("));
    let c1 = f.insert_to_way_nodes_file(&WayNode { way_id: 5, node_id: 6 });
    let c2 = f.insert_to_way_nodes_file(&WayNode { way_id: 5, node_id: 7 });
    assert_eq!(text(&c1), ";\nINSERT INTO way_nodes (way_id,node_id) VALUES (5,6)");
    assert_eq!(text(&c2), ";\nINSERT INTO way_nodes (way_id,node_id) VALUES (5,7)");
    let (mut r, _) = SqlFile::new_ref_tags_file(&a);
    let c = r.insert_to_ref_tags_file(&UsedTag { tag_id: 3, value: "x".into(), owner: EntityRef::Node(11) });
    assert_eq!(
        text(&c),
        ";\nINSERT INTO ref_tags (tag_id,node_id,relation_id,way_id,value) VALUES (3,11,NULL,NULL,\"x\")"
    );
    let (mut m, _) = SqlFile::new_main_file(&a, Table::Relations);
    let mut info = MainInfo::default();
    info.id = 77;
    let c = m.insert_to_main_file(&info);
    assert_eq!(
        text(&c),
        ";\nINSERT INTO relations (id,version,changeset,user,uid,visible,timestamp) VALUES (77,8,0,\"anonymous\",0,1,\"2011-01-12T14:23:49Z\")"
    );
}
