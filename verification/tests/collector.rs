use mdbook_preprocessors::book::Chapter;
use mdbook_preprocessors::collector::{data_to_save, Collector, Config, DataType};
use mdbook_preprocessors::settings::{ConfigError, Setting, SettingValue, Settings};
use serde_json::Value;

fn settings(entries: Vec<(&str, SettingValue)>) -> Settings {
    Settings {
        entries: entries
            .into_iter()
            .map(|(k, v)| Setting { key: k.to_string(), value: v })
            .collect(),
    }
}

fn text(s: &str) -> SettingValue {
    SettingValue::Text(s.to_string())
}

fn chapter(name: &str, path: Option<&str>, content: &str) -> Chapter {
    Chapter {
        name: name.to_string(),
        path: path.map(|p| p.to_string()),
        content: content.to_string(),
    }
}

#[test]
fn data_type_names() {
    assert_eq!(DataType::new("yaml"), DataType::Yaml);
    assert_eq!(DataType::new("YML"), DataType::Yaml);
    assert_eq!(DataType::new("Toml"), DataType::Toml);
    assert_eq!(DataType::new("json"), DataType::Json);
    assert_eq!(DataType::new("xml"), DataType::Json);
    assert_eq!(DataType::default(), DataType::Json);
}

#[test]
fn default_config() {
    let c = Config::new(None).ok().unwrap();
    assert_eq!(c.input_type, DataType::Json);
    assert_eq!(c.marker, "collect");
    assert_eq!(c.save_path, "collect.json");
    assert_eq!(c.path_key, "path");
    assert!(c.add_title);
}

#[test]
fn config_from_table() {
    let s = settings(vec![
        ("input_type", text("YAML")),
        ("marker", text("data")),
        ("save_path", text("out/data.json")),
        ("path_key", text("url")),
        ("add_title", SettingValue::Flag(false)),
    ]);
    let c = Config::new(Some(&s)).ok().unwrap();
    assert_eq!(c.input_type, DataType::Yaml);
    assert_eq!(c.marker, "data");
    assert_eq!(c.save_path, "out/data.json");
    assert_eq!(c.path_key, "url");
    assert!(!c.add_title);
}

#[test]
fn config_errors() {
    let s = settings(vec![("input_type", SettingValue::Other("Integer(3)".to_string()))]);
    match Config::new(Some(&s)) {
        Err(ConfigError::NotAString { key, found: SettingValue::Other(d) }) => {
            assert_eq!(key, "input_type");
            assert_eq!(d, "Integer(3)");
        }
        _ => panic!("expected a string error"),
    }
    let s = settings(vec![("add_title", text("yes"))]);
    match Config::new(Some(&s)) {
        Err(ConfigError::NotABool { key, found: SettingValue::Text(t) }) => {
            assert_eq!(key, "add_title");
            assert_eq!(t, "yes");
        }
        _ => panic!("expected a boolean error"),
    }
    // every setting is type-checked before the marker is compiled
    let s = settings(vec![("marker", text("(")), ("save_path", SettingValue::Flag(true))]);
    match Config::new(Some(&s)) {
        Err(ConfigError::NotAString { key, .. }) => assert_eq!(key, "save_path"),
        _ => panic!("expected a string error"),
    }
    let s = settings(vec![("marker", text("("))]);
    match Config::new(Some(&s)) {
        Err(ConfigError::BadMarker { marker }) => assert_eq!(marker, "("),
        _ => panic!("expected a marker error"),
    }
}

#[test]
fn collects_json_block() {
    let c = Config::new(None).ok().unwrap();
    let re = c.regex().ok().unwrap();
    let mut content = String::from(
        "# Post\n<!-- collect\n{\n  \"data\": {\n    \"type\": \"json\",\n    \"keywords\": [\"json\", \"collect\"]\n  }\n}\n-->\nBody",
    );
    let m = c.collect_and_drain(&re, &mut content).unwrap();
    assert_eq!(content, "# Post\n\nBody");
    assert_eq!(m["data"]["type"], Value::String("json".to_string()));
    assert_eq!(m["data"]["keywords"][1], Value::String("collect".to_string()));
}

#[test]
fn ignores_block_that_is_not_a_map() {
    let c = Config::new(None).ok().unwrap();
    let re = c.regex().ok().unwrap();
    let original = "<!-- collect\n  \"data\": {\n    \"type\": \"json\"\n  }\n-->\ntext";
    let mut content = String::from(original);
    assert!(c.collect_and_drain(&re, &mut content).is_none());
    assert_eq!(content, original);
}

#[test]
fn no_block_no_change() {
    let c = Config::new(None).ok().unwrap();
    let re = c.regex().ok().unwrap();
    let mut content = String::from("plain text <!-- other --> more");
    assert!(c.collect_and_drain(&re, &mut content).is_none());
    assert_eq!(content, "plain text <!-- other --> more");
}

#[test]
fn collects_toml_and_yaml() {
    let s = settings(vec![("input_type", text("toml"))]);
    let c = Config::new(Some(&s)).ok().unwrap();
    let re = c.regex().ok().unwrap();
    let mut content =
        String::from("a<!-- collect\n  [data]\n  type = \"toml\"\n  keywords=[\"toml\", \"collect\"] # any comment\n-->b");
    let m = c.collect_and_drain(&re, &mut content).unwrap();
    assert_eq!(content, "ab");
    assert_eq!(m["data"]["type"], Value::String("toml".to_string()));

    let s = settings(vec![("input_type", text("yml"))]);
    let c = Config::new(Some(&s)).ok().unwrap();
    let re = c.regex().ok().unwrap();
    let mut content = String::from("<!--collect\ndata:\n  type: yaml\n-->é");
    let m = c.collect_and_drain(&re, &mut content).unwrap();
    assert_eq!(content, "é");
    assert_eq!(m["data"]["type"], Value::String("yaml".to_string()));
}

#[test]
fn only_first_block_is_taken() {
    let c = Config::new(None).ok().unwrap();
    let re = c.regex().ok().unwrap();
    let mut content = String::from("<!-- collect {\"a\": 1} --> x <!-- collect {\"b\": 2} -->");
    let m = c.collect_and_drain(&re, &mut content).unwrap();
    assert!(m.contains_key("a"));
    assert!(!m.contains_key("b"));
    assert_eq!(content, " x <!-- collect {\"b\": 2} -->");
}

#[test]
fn collect_book_keys_by_name_with_path_and_title() {
    let c = Config::new(None).ok().unwrap();
    let mut chapters = vec![
        chapter("First", Some("posts/first.md"), "<!-- collect {\"k\": 1} -->one"),
        chapter("Second", Some("posts/second.md"), "no data"),
        chapter("Draft", None, "<!-- collect {\"k\": 2} -->draft"),
        chapter("Third", Some("posts/third.md"), "<!-- collect not json -->three"),
    ];
    let m = c.collect_book(&mut chapters).ok().unwrap();
    assert_eq!(m.len(), 1);
    assert_eq!(m["First"]["title"], Value::String("First".to_string()));
    assert_eq!(m["First"]["path"], Value::String("posts/first.md".to_string()));
    assert_eq!(m["First"]["k"], Value::from(1));
    assert_eq!(m["First"].as_object().unwrap().len(), 3);
    assert_eq!(chapters[0].content, "one");
    assert_eq!(chapters[1].content, "no data");
    assert_eq!(chapters[2].content, "<!-- collect {\"k\": 2} -->draft");
    assert_eq!(chapters[3].content, "<!-- collect not json -->three");
    assert_eq!(chapters[0].name, "First");
}

#[test]
fn collect_book_without_titles_and_repeated_name() {
    let s = settings(vec![("add_title", SettingValue::Flag(false)), ("path_key", text("url"))]);
    let c = Config::new(Some(&s)).ok().unwrap();
    let mut chapters = vec![
        chapter("N", Some("p.md"), "<!-- collect {\"v\": 1} -->"),
        chapter("N", Some("q.md"), "<!-- collect {\"v\": 2} -->"),
    ];
    let m = c.collect_book(&mut chapters).ok().unwrap();
    assert_eq!(m.len(), 1);
    assert_eq!(m["N"]["v"], Value::from(2));
    assert_eq!(m["N"]["url"], Value::String("q.md".to_string()));
    assert!(m["N"].get("title").is_none());
    assert!(m["N"].get("path").is_none());
}

#[test]
fn collect_book_bad_marker() {
    let c = Config {
        input_type: DataType::Json,
        marker: "[".to_string(),
        save_path: "x".to_string(),
        path_key: "path".to_string(),
        add_title: true,
    };
    let mut chapters = vec![chapter("A", Some("a.md"), "text")];
    assert!(matches!(c.collect_book(&mut chapters), Err(ConfigError::BadMarker { .. })));
    assert_eq!(chapters[0].content, "text");
}

#[test]
fn data_to_save_only_when_not_empty() {
    let c = Config::new(None).ok().unwrap();
    let mut chapters = vec![chapter("A", Some("a.md"), "nothing")];
    let m = c.collect_book(&mut chapters).ok().unwrap();
    assert!(data_to_save(&m).is_none());
    let mut chapters = vec![chapter("A", Some("a.md"), "<!-- collect {\"n\": [1, 2]} -->")];
    let m = c.collect_book(&mut chapters).ok().unwrap();
    let text = data_to_save(&m).unwrap();
    assert_eq!(text, r#"{"A":{"n":[1,2],"path":"a.md","title":"A"}}"#);
}

#[test]
fn readme_layout() {
    // the README's example: the post's data, keyed by its name, with its path
    let c = Config::new(None).ok().unwrap();
    let mut chapters = vec![chapter(
        "post's name",
        Some("posts/path.md"),
        "<!-- collect\n{\n  \"data\": {\n    \"type\": \"json\",\n    \"keywords\": [\"json\", \"collect\"]\n  }\n}\n-->",
    )];
    let m = c.collect_book(&mut chapters).ok().unwrap();
    let expected: Value = serde_json::from_str(
        r#"{"post's name": {"path": "posts/path.md", "title": "post's name",
            "data": {"type": "json", "keywords": ["json", "collect"]}}}"#,
    )
    .unwrap();
    assert_eq!(Value::Object(m), expected);
    assert_eq!(chapters[0].content, "");
}

#[test]
fn path_key_must_be_text() {
    let s = settings(vec![("path_key", SettingValue::Flag(true))]);
    match Config::new(Some(&s)) {
        Err(ConfigError::NotAString { key, .. }) => assert_eq!(key, "path_key"),
        _ => panic!("expected a string error"),
    }
}

#[test]
fn error_messages() {
    let e = ConfigError::NotAString {
        key: "marker".to_string(),
        found: SettingValue::Other("Integer(3)".to_string()),
    };
    assert_eq!(e.message(), "marker Integer(3) is not a valid string");
    let e = ConfigError::NotABool {
        key: "add_title".to_string(),
        found: SettingValue::Text("y\"es".to_string()),
    };
    assert_eq!(e.message(), "add_title String(\"y\\\"es\") is not a valid boolean type");
    let e = ConfigError::NotAString { key: "k".to_string(), found: SettingValue::Flag(false) };
    assert_eq!(e.message(), "k Boolean(false) is not a valid string");
    let e = ConfigError::BadMarker { marker: "(a".to_string() };
    assert_eq!(e.message(), "marker \"(a\" has failed to be parsed into regular expression");
}

#[test]
fn nested_values_are_kept() {
    let s = settings(vec![("input_type", text("yaml"))]);
    let c = Config::new(Some(&s)).ok().unwrap();
    let re = c.regex().ok().unwrap();
    let mut content = String::from("a<!-- collect {\"k\": [1, 2]} -->b");
    let m = c.collect_and_drain(&re, &mut content).unwrap();
    assert_eq!(Value::Object(m), serde_json::from_str::<Value>(r#"{"k": [1, 2]}"#).unwrap());
    assert_eq!(content, "ab");
}

#[test]
fn collector_name() {
    assert_eq!(Collector::new().name(), "collector");
}
