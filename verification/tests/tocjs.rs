use mdbook_preprocessors::settings::{ConfigError, Setting, SettingValue, Settings};
use mdbook_preprocessors::tocjs::{Config, TocJsMaker};

fn settings(entries: Vec<(&str, SettingValue)>) -> Settings {
    Settings {
        entries: entries
            .into_iter()
            .map(|(k, v)| Setting { key: k.to_string(), value: v })
            .collect(),
    }
}

#[test]
fn default_tocjs_config() {
    let c = Config::new(None).ok().unwrap();
    assert_eq!(c.save_dir, "lib");
    assert_eq!(c.block_marker_id, "tock");
    assert_eq!(c.wing_marker_id, "tocw");
    assert_eq!(c.theme_dir, "theme");
    assert_eq!(c.base_url, "/");
}

#[test]
fn tocjs_config_from_table() {
    let s = settings(vec![
        ("base_url", SettingValue::Text("/book/".to_string())),
        ("wing_marker_id", SettingValue::Text("side".to_string())),
    ]);
    let c = Config::new(Some(&s)).ok().unwrap();
    assert_eq!(c.base_url, "/book/");
    assert_eq!(c.wing_marker_id, "side");
    assert_eq!(c.block_marker_id, "tock");
    let s = settings(vec![("theme_dir", SettingValue::Other("Integer(1)".to_string()))]);
    match Config::new(Some(&s)) {
        Err(ConfigError::NotAString { key, .. }) => assert_eq!(key, "theme_dir"),
        _ => panic!("expected a string error"),
    }
}

#[test]
fn format_js_wraps_literal() {
    let c = Config::new(None).ok().unwrap();
    let js = c.format_js("class TocMaker {}");
    let expected = format!(
        r#"
      {}
      window.addEventListener("load", (e)=>{{
        const toc_maker = new TocMaker();
        toc_maker.build_block("{}");
        toc_maker.build_wing("{}");
      }});
      "#,
        "class TocMaker {}", "tock", "tocw"
    );
    assert_eq!(js, expected);
}

#[test]
fn head_lines_use_base_url() {
    let s = settings(vec![("base_url", SettingValue::Text("/b/".to_string()))]);
    let c = Config::new(Some(&s)).ok().unwrap();
    assert_eq!(
        c.head_lines(),
        vec![
            r#"<link rel="stylesheet" href="/b/lib/toc.css">"#.to_string(),
            r#"<script src="/b/lib/toc.js"></script>"#.to_string()
        ]
    );
}

#[test]
fn head_addition_cases() {
    let c = Config::new(None).ok().unwrap();
    let css = r#"<link rel="stylesheet" href="/lib/toc.css">"#;
    let js = r#"<script src="/lib/toc.js"></script>"#;
    assert_eq!(c.head_hbs_addition(None), format!("{}{}", css, js));
    assert_eq!(c.head_hbs_addition(Some("<meta>")), format!("{}{}", css, js));
    assert_eq!(c.head_hbs_addition(Some(&format!("x{}y", css))), js);
    assert_eq!(c.head_hbs_addition(Some(&format!("{}\n{}", js, css))), "");
}

#[test]
fn head_addition_is_idempotent() {
    let c = Config::new(None).ok().unwrap();
    for existing in [None, Some("<meta charset=\"utf-8\">"), Some("")] {
        let first = c.head_hbs_addition(existing);
        let after = format!("{}{}", existing.unwrap_or(""), first);
        assert_eq!(c.head_hbs_addition(Some(&after)), "");
    }
}

#[test]
fn tocjs_name() {
    assert_eq!(TocJsMaker::new().name(), "tocjs");
}
