use chat_store::order::{recency_of, sort_key, sort_newest_first};
use chat_store::store::{list_chats, read_record, repair, save_chat, ScannedFile};
use serde_json::{Number, Value};

fn object(members: Vec<(&str, Value)>) -> Value {
    let mut map = serde_json::Map::new();
    for (key, item) in members {
        map.insert(key.to_string(), item);
    }
    Value::Object(map)
}

fn text(s: &str) -> Value {
    Value::String(s.to_string())
}

fn whole(n: i64) -> Value {
    Value::Number(Number::from(n))
}

fn double(x: f64) -> Value {
    Value::Number(Number::from_f64(x).unwrap())
}

fn file(name: &str, content: &str) -> ScannedFile {
    ScannedFile {
        name: name.to_string(),
        content: Some(content.to_string()),
        created: None,
    }
}

fn ids(records: &[Value]) -> Vec<String> {
    records
        .iter()
        .map(|r| r["id"].as_str().unwrap_or("").to_string())
        .collect()
}

#[test]
fn list_reports_the_stem_not_the_stored_id() {
    let records = list_chats(Some(vec![file("b.json", "{\"id\": \"a\", \"timestamp\": 1}")]));
    assert_eq!(records.len(), 1);
    assert_eq!(records[0]["id"], text("b"));
    assert_eq!(records[0]["timestamp"], whole(1));
}

#[test]
fn list_gives_an_id_to_a_record_without_one() {
    let records = list_chats(Some(vec![file("only.json", "{\"title\": \"t\"}")]));
    assert_eq!(records, vec![object(vec![("id", text("only")), ("title", text("t"))])]);
}

#[test]
fn list_orders_newest_first() {
    let records = list_chats(Some(vec![
        file("a.json", "{\"timestamp\": 100}"),
        file("b.json", "{\"timestamp\": 300}"),
        file("c.json", "{\"timestamp\": 200}"),
    ]));
    let stamps: Vec<Value> = records.iter().map(|r| r["timestamp"].clone()).collect();
    assert_eq!(stamps, vec![whole(300), whole(200), whole(100)]);
    assert_eq!(ids(&records), vec!["b", "c", "a"]);
}

#[test]
fn list_passes_over_a_corrupt_file() {
    let records = list_chats(Some(vec![
        file("a.json", "{\"timestamp\": 1}"),
        file("bad.json", "{not json"),
        file("c.json", "{\"timestamp\": 2}"),
    ]));
    assert_eq!(ids(&records), vec!["c", "a"]);
}

#[test]
fn list_passes_over_files_that_are_no_records_or_unreadable() {
    let unreadable = ScannedFile {
        name: "gone.json".to_string(),
        content: None,
        created: Some(double(5.0)),
    };
    let records = list_chats(Some(vec![
        file("notes.txt", "{\"timestamp\": 9}"),
        file("a.JSON", "{\"timestamp\": 8}"),
        file(".json", "{\"timestamp\": 7}"),
        unreadable,
        file("kept.json", "{}"),
    ]));
    assert_eq!(records, vec![object(vec![("id", text("kept"))])]);
}

#[test]
fn list_of_a_directory_that_could_not_be_read_is_empty() {
    assert_eq!(list_chats(None), Vec::<Value>::new());
    assert_eq!(list_chats(Some(vec![])), Vec::<Value>::new());
}

#[test]
fn list_keeps_what_is_no_object_as_it_is() {
    let with_time = ScannedFile {
        name: "n.json".to_string(),
        content: Some("17".to_string()),
        created: Some(double(1000.0)),
    };
    let records = list_chats(Some(vec![
        with_time,
        file("arr.json", "[1, 2]"),
        file("obj.json", "{\"timestamp\": 5}"),
    ]));
    assert_eq!(records.len(), 3);
    assert_eq!(records[0]["id"], text("obj"));
    assert_eq!(records[1], whole(17));
    assert_eq!(records[2], Value::Array(vec![whole(1), whole(2)]));
}

#[test]
fn list_takes_the_creation_time_where_the_timestamp_is_missing() {
    let old = ScannedFile {
        name: "old.json".to_string(),
        content: Some("{\"title\": \"o\"}".to_string()),
        created: Some(double(1500.5)),
    };
    let own = ScannedFile {
        name: "own.json".to_string(),
        content: Some("{\"timestamp\": 1000}".to_string()),
        created: Some(double(9999.0)),
    };
    let none = ScannedFile {
        name: "none.json".to_string(),
        content: Some("{}".to_string()),
        created: None,
    };
    let records = list_chats(Some(vec![none, own, old]));
    assert_eq!(ids(&records), vec!["old", "own", "none"]);
    assert_eq!(records[0]["timestamp"], double(1500.5));
    assert_eq!(records[1]["timestamp"], whole(1000));
    assert!(records[2].get("timestamp").is_none());
}

#[test]
fn list_keeps_a_timestamp_that_is_no_number_and_counts_it_as_zero() {
    let stringy = ScannedFile {
        name: "s.json".to_string(),
        content: Some("{\"timestamp\": \"5000\"}".to_string()),
        created: Some(double(7000.0)),
    };
    let records = list_chats(Some(vec![
        stringy,
        file("neg.json", "{\"timestamp\": -1}"),
        file("pos.json", "{\"timestamp\": 1}"),
    ]));
    assert_eq!(ids(&records), vec!["pos", "s", "neg"]);
    assert_eq!(records[1]["timestamp"], text("5000"));
}

#[test]
fn list_shows_one_record_for_an_id_saved_twice() {
    let first = save_chat(object(vec![("id", text("same")), ("v", whole(1))]), 1).unwrap();
    let second = save_chat(object(vec![("id", text("same")), ("v", whole(2))]), 2).unwrap();
    assert_eq!(first.file_name, second.file_name);
    let other = save_chat(object(vec![("id", text("other"))]), 3).unwrap();
    let records = list_chats(Some(vec![
        ScannedFile { name: second.file_name, content: Some(second.content), created: None },
        ScannedFile { name: other.file_name, content: Some(other.content), created: None },
    ]));
    let same: Vec<&Value> = records.iter().filter(|r| r["id"] == text("same")).collect();
    assert_eq!(same.len(), 1);
    assert_eq!(same[0]["v"], whole(2));
    assert_eq!(records.len(), 2);
}

#[test]
fn read_record_repairs_an_object() {
    let scanned = ScannedFile {
        name: "r.json".to_string(),
        content: Some("{\"id\": 5, \"z\": null}".to_string()),
        created: Some(whole(12)),
    };
    let record = read_record(scanned).unwrap();
    assert_eq!(
        record,
        object(vec![("id", text("r")), ("timestamp", whole(12)), ("z", Value::Null)])
    );
    assert!(read_record(file("r.txt", "{}")).is_none());
    assert!(read_record(file("r.json", "{")).is_none());
}

#[test]
fn repair_sets_id_and_fills_the_timestamp() {
    let mut doc = object(vec![("id", text("wrong"))]);
    repair(&mut doc, "right".to_string(), Some(double(2.5)));
    assert_eq!(doc, object(vec![("id", text("right")), ("timestamp", double(2.5))]));

    let mut doc = object(vec![("timestamp", Value::Null)]);
    repair(&mut doc, "k".to_string(), Some(double(2.5)));
    assert_eq!(doc, object(vec![("id", text("k")), ("timestamp", Value::Null)]));

    let mut doc = Value::Array(vec![]);
    repair(&mut doc, "k".to_string(), Some(double(2.5)));
    assert_eq!(doc, Value::Array(vec![]));
}

#[test]
fn sort_key_follows_the_order_of_doubles() {
    assert_eq!(sort_key(0), 0);
    assert_eq!(sort_key(0x8000_0000_0000_0000), 0);
    assert_eq!(sort_key(1.0f64.to_bits()), 0x3ff0_0000_0000_0000);
    assert_eq!(sort_key((-1.0f64).to_bits()), -0x3ff0_0000_0000_0000);
    assert_eq!(sort_key(u64::MAX), -0x7fff_ffff_ffff_ffff);
    assert_eq!(sort_key(0x7fff_ffff_ffff_ffff), 0x7fff_ffff_ffff_ffff);
    let values = [
        f64::MIN, -1.0e300, -1700000000000.0, -2.5, -1.0, -f64::MIN_POSITIVE, -5e-324, -0.0,
        0.0, 5e-324, f64::MIN_POSITIVE, 0.1, 1.0, 1.5, 100.0, 200.0, 300.0, 1700000000000.0,
        1700000000000.5, 1.0e300, f64::MAX,
    ];
    for a in values {
        for b in values {
            let (ka, kb) = (sort_key(a.to_bits()), sort_key(b.to_bits()));
            assert_eq!(a < b, ka < kb, "{} {}", a, b);
            assert_eq!(a == b, ka == kb, "{} {}", a, b);
        }
    }
}

#[test]
fn recency_reads_the_timestamp_as_a_double() {
    assert_eq!(recency_of(&object(vec![("timestamp", whole(100))])), sort_key(100.0f64.to_bits()));
    assert_eq!(recency_of(&object(vec![("timestamp", whole(-3))])), sort_key((-3.0f64).to_bits()));
    assert_eq!(recency_of(&object(vec![("timestamp", double(0.25))])), sort_key(0.25f64.to_bits()));
    assert_eq!(recency_of(&object(vec![("timestamp", text("100"))])), 0);
    assert_eq!(recency_of(&object(vec![])), 0);
    assert_eq!(recency_of(&whole(100)), 0);
    assert_eq!(recency_of(&Value::Array(vec![whole(100)])), 0);
}

#[test]
fn sort_keeps_the_order_of_equally_recent_records() {
    let records = vec![
        object(vec![("id", text("a")), ("timestamp", whole(5))]),
        object(vec![("id", text("b")), ("timestamp", whole(9))]),
        object(vec![("id", text("c")), ("timestamp", double(5.0))]),
        object(vec![("id", text("d"))]),
        object(vec![("id", text("e")), ("timestamp", whole(9))]),
        object(vec![("id", text("f")), ("timestamp", double(-0.0))]),
        object(vec![("id", text("g")), ("timestamp", whole(-4))]),
    ];
    let sorted = sort_newest_first(records);
    assert_eq!(ids(&sorted), vec!["b", "e", "a", "c", "d", "f", "g"]);
}

#[test]
fn sort_agrees_with_a_stable_sort_by_the_double() {
    let stamps = [3.5, -1.0, 0.0, 1e12, 3.5, 2.0, -7.25, 1e12, 0.5, 1.7e12, -0.0, 42.0];
    let records: Vec<Value> = stamps
        .iter()
        .enumerate()
        .map(|(i, s)| object(vec![("n", whole(i as i64)), ("timestamp", double(*s))]))
        .collect();
    let mut expected = records.clone();
    expected.sort_by(|a, b| {
        let ta = a["timestamp"].as_f64().unwrap_or(0.0);
        let tb = b["timestamp"].as_f64().unwrap_or(0.0);
        tb.partial_cmp(&ta).unwrap()
    });
    assert_eq!(sort_newest_first(records), expected);
    assert_eq!(sort_newest_first(vec![]), Vec::<Value>::new());
}
