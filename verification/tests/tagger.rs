use mdbook_preprocessors::book::Chapter;
use mdbook_preprocessors::index::{PostIndex, TagIndex};
use mdbook_preprocessors::settings::{ConfigError, Setting, SettingValue, Settings};
use mdbook_preprocessors::tagger::{Config, Tagger};
use serde_json::Value;

fn settings(entries: Vec<(&str, SettingValue)>) -> Settings {
    Settings {
        entries: entries
            .into_iter()
            .map(|(k, v)| Setting { key: k.to_string(), value: v })
            .collect(),
    }
}

fn chapter(name: &str, path: Option<&str>, content: &str) -> Chapter {
    Chapter {
        name: name.to_string(),
        path: path.map(|p| p.to_string()),
        content: content.to_string(),
    }
}

fn json(text: String) -> Value {
    serde_json::from_str(&text).unwrap()
}

/// The JSON of both indexes (`Null` for an index that is not saved) and the
/// number of files to save.
fn saved(c: &Config, t2p: &TagIndex, p2t: &PostIndex) -> (Value, Value, usize) {
    let files = c.index_files(t2p, p2t);
    let mut tags = Value::Null;
    let mut posts = Value::Null;
    for (path, text) in &files {
        if *path == c.tag2posts_path {
            tags = json(text.clone());
        } else if *path == c.post2tags_path {
            posts = json(text.clone());
        }
    }
    (tags, posts, files.len())
}

#[test]
fn default_tagger_config() {
    let c = Config::new(None).ok().unwrap();
    assert_eq!(c.marker, "tags");
    assert_eq!(c.split, ";");
    assert_eq!(c.tag2posts_path, "tag2posts.json");
    assert_eq!(c.post2tags_path, "post2tags.json");
}

#[test]
fn tagger_config_from_table() {
    let s = settings(vec![
        ("split", SettingValue::Text(",".to_string())),
        ("post2tags_path", SettingValue::Text("p.json".to_string())),
    ]);
    let c = Config::new(Some(&s)).ok().unwrap();
    assert_eq!(c.split, ",");
    assert_eq!(c.post2tags_path, "p.json");
    assert_eq!(c.tag2posts_path, "tag2posts.json");
    let s = settings(vec![("split", SettingValue::Flag(true))]);
    match Config::new(Some(&s)) {
        Err(ConfigError::NotAString { key, found: SettingValue::Flag(true) }) => {
            assert_eq!(key, "split")
        }
        _ => panic!("expected a string error"),
    }
    let s = settings(vec![("marker", SettingValue::Text("tags(".to_string()))]);
    assert!(matches!(Config::new(Some(&s)), Err(ConfigError::BadMarker { .. })));
}

#[test]
fn reads_tag_list_and_drains() {
    let c = Config::new(None).ok().unwrap();
    let mut chapters =
        vec![chapter("My post", Some("posts/a.md"), "Intro\n<!-- tags: computer; book; duck; -->\nText")];
    let (t2p, p2t) = c.tag_book(&mut chapters).ok().unwrap();
    assert_eq!(chapters[0].content, "Intro\n\nText");
    let (tags, posts, n) = saved(&c, &t2p, &p2t);
    assert_eq!(n, 2);
    assert_eq!(posts, json(r#"{"posts/a.md": ["computer", "book", "duck"]}"#.to_string()));
    assert_eq!(tags.as_object().unwrap().len(), 3);
    assert_eq!(tags["book"], json(r#"[["My post", "posts/a.md"]]"#.to_string()));
}

#[test]
fn comma_split_and_no_colon() {
    let s = settings(vec![("split", SettingValue::Text(",".to_string()))]);
    let c = Config::new(Some(&s)).ok().unwrap();
    let mut chapters = vec![chapter("P", Some("p.md"), "<!--tags computer, book , duck-->")];
    let (t2p, p2t) = c.tag_book(&mut chapters).ok().unwrap();
    assert_eq!(chapters[0].content, "");
    let (_, posts, _) = saved(&c, &t2p, &p2t);
    assert_eq!(posts, json(r#"{"p.md": ["computer", "book", "duck"]}"#.to_string()));
}

#[test]
fn no_tag_list_leaves_everything() {
    let c = Config::new(None).ok().unwrap();
    let mut chapters = vec![chapter("P", Some("p.md"), "no tags <!-- note -->")];
    let (t2p, p2t) = c.tag_book(&mut chapters).ok().unwrap();
    assert_eq!(chapters[0].content, "no tags <!-- note -->");
    assert_eq!(c.index_files(&t2p, &p2t).len(), 0);
}

#[test]
fn tag_book_builds_both_indexes() {
    let c = Config::new(None).ok().unwrap();
    let mut chapters = vec![
        chapter("One", Some("one.md"), "<!-- tags: rust; book -->1"),
        chapter("Two", Some("two.md"), "<!-- tags: rust -->2"),
        chapter("Hidden", None, "<!-- tags: rust -->3"),
        chapter("Empty", Some("empty.md"), "<!-- tags: ; ; -->4"),
    ];
    let (t2p, p2t) = c.tag_book(&mut chapters).ok().unwrap();
    let (tags, posts, _) = saved(&c, &t2p, &p2t);
    assert_eq!(
        tags,
        json(
            r#"{"rust": [["One", "one.md"], ["Two", "two.md"]], "book": [["One", "one.md"]]}"#
                .to_string()
        )
    );
    assert_eq!(
        posts,
        json(r#"{"one.md": ["rust", "book"], "two.md": ["rust"], "empty.md": []}"#.to_string())
    );
    assert_eq!(chapters[0].content, "1");
    assert_eq!(chapters[1].content, "2");
    assert_eq!(chapters[2].content, "<!-- tags: rust -->3");
    assert_eq!(chapters[3].content, "4");
}

#[test]
fn indexes_agree_on_repeated_path() {
    // the later chapter replaces the tags of the path; the tag index keeps both posts
    let c = Config::new(None).ok().unwrap();
    let mut chapters = vec![
        chapter("Old", Some("p.md"), "<!-- tags: a -->"),
        chapter("New", Some("p.md"), "<!-- tags: b -->"),
    ];
    let (t2p, p2t) = c.tag_book(&mut chapters).ok().unwrap();
    let (tags, posts, _) = saved(&c, &t2p, &p2t);
    assert_eq!(posts, json(r#"{"p.md": ["b"]}"#.to_string()));
    assert_eq!(
        tags,
        json(r#"{"a": [["Old", "p.md"]], "b": [["New", "p.md"]]}"#.to_string())
    );
}

#[test]
fn repeated_tag_lists_post_twice() {
    let c = Config::new(None).ok().unwrap();
    let mut chapters = vec![chapter("P", Some("p.md"), "<!-- tags: x; x -->")];
    let (t2p, p2t) = c.tag_book(&mut chapters).ok().unwrap();
    let (tags, _, _) = saved(&c, &t2p, &p2t);
    assert_eq!(tags, json(r#"{"x": [["P", "p.md"], ["P", "p.md"]]}"#.to_string()));
}

#[test]
fn index_files_paths() {
    let s = settings(vec![
        ("tag2posts_path", SettingValue::Text("t.json".to_string())),
        ("post2tags_path", SettingValue::Text("p.json".to_string())),
    ]);
    let c = Config::new(Some(&s)).ok().unwrap();
    let mut chapters = vec![chapter("P", Some("p.md"), "<!-- tags: ; -->")];
    let (t2p, p2t) = c.tag_book(&mut chapters).ok().unwrap();
    // the post is listed with no tags, so only the post index is saved
    let files = c.index_files(&t2p, &p2t);
    assert_eq!(files.len(), 1);
    assert_eq!(files[0].0, "p.json");
    assert_eq!(json(files[0].1.clone()), json(r#"{"p.md": []}"#.to_string()));
}

#[test]
fn index_files_exact_text() {
    let c = Config::new(None).ok().unwrap();
    let mut chapters = vec![chapter("T \"q\"", Some("d/p.md"), "<!-- tags: x\ty -->")];
    let (t2p, p2t) = c.tag_book(&mut chapters).ok().unwrap();
    let files = c.index_files(&t2p, &p2t);
    assert_eq!(files.len(), 2);
    assert_eq!(files[0].1, r#"{"x\ty":[["T \"q\"","d/p.md"]]}"#);
    assert_eq!(files[1].1, r#"{"d/p.md":["x\ty"]}"#);
}

#[test]
fn tagger_name() {
    assert_eq!(Tagger::new().name(), "tagger");
}
