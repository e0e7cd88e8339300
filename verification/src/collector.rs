//! The collector: reads a data block `<!-- collect ... -->` from each
//! chapter, parses it as JSON, YAML or TOML, removes it from the chapter,
//! and gathers the parsed objects by post name, each with the post's path.

use vstd::prelude::*;

use crate::book::{copy_path, Chapter};
use crate::json::{
    insert_object, insert_text, json_object_tree, new_object, object_json, object_len,
    object_to_json, object_tree, parse_json_object, parse_toml_object, parse_yaml_object,
    toml_object_tree, yaml_object_tree, JsonObject, JsonTree, ObjectTree,
};
use crate::marker::{
    build_marker_pattern, compile_regex, first_captures, marked_block, marker_pattern,
    regex_accepts, MarkerRegex,
};
use crate::settings::{
    get_value_to_str, setting_of, table_of, text_or, text_setting, ConfigError, ConfigFault,
    Setting, SettingValue, Settings,
};
use crate::span::{cut_span, remove_span, span_to_string};
use crate::text::{ascii_lower, ascii_upper, lemma_ascii_lower_folds, lowercase, to_lowercase};
use vstd::utf8::is_ascii_chars;

verus! {

/// The format of the data blocks.
#[derive(Clone, Copy, Debug, PartialEq, Eq)]
pub enum DataType {
    Json,
    Yaml,
    Toml,
}

impl Default for DataType {
    fn default() -> (r: DataType)
        ensures
            r == DataType::Json,
    {
        DataType::Json
    }
}

/// The format that the lowercase name `l` selects: `yaml` or `yml` for
/// YAML, `toml` for TOML, and JSON for anything else.
pub open spec fn format_named(l: Seq<char>) -> DataType {
    if l == "yaml"@ || l == "yml"@ {
        DataType::Yaml
    } else if l == "toml"@ {
        DataType::Toml
    } else {
        DataType::Json
    }
}

/// The format that the setting `name` selects, in any case.
pub open spec fn data_type_for(name: Seq<char>) -> DataType {
    format_named(lowercase(name))
}

/// For ASCII names the format ignores case: the name, the name in
/// lowercase and the name in capitals all select the format of its
/// lowercase form.
pub proof fn lemma_format_ignores_case(name: Seq<char>)
    requires
        is_ascii_chars(name),
    ensures
        is_ascii_chars(ascii_lower(name)),
        is_ascii_chars(ascii_upper(name)),
        format_named(ascii_lower(ascii_lower(name))) == format_named(ascii_lower(name)),
        format_named(ascii_lower(ascii_upper(name))) == format_named(ascii_lower(name)),
{
    lemma_ascii_lower_folds(name);
}

impl DataType {
    /// The format that `name` selects.
    pub fn new(name: &str) -> (r: DataType)
        ensures
            r == data_type_for(name@),
            is_ascii_chars(name@) ==> r == format_named(ascii_lower(name@)),
    {
        let lower = to_lowercase(name);
        if lower == "yaml".to_owned() || lower == "yml".to_owned() {
            DataType::Yaml
        } else if lower == "toml".to_owned() {
            DataType::Toml
        } else {
            DataType::default()
        }
    }
}

/// The tail of the collector's pattern: the block's text, lazily up to the
/// first `-->`, with `.` matching newlines.
pub open spec fn collect_tail() -> Seq<char> {
    "((?s).*?)-->"@
}

/// The pattern that finds the data block of `marker`.
pub open spec fn collect_pattern(marker: Seq<char>) -> Seq<char> {
    marker_pattern(marker, collect_tail())
}

/// Settings of the collector.
pub struct Config {
    /// The format of the data blocks.
    pub input_type: DataType,
    /// The word after `<!--` that marks a data block.
    pub marker: String,
    /// Where the gathered data is saved, relative to the book's source
    /// directory.
    pub save_path: String,
    /// The key under which each post's object also gets the post's path.
    pub path_key: String,
    /// Whether each chapter's object also gets its title under `title`.
    pub add_title: bool,
}

/// The settings as plain values: format, marker, save path, path key,
/// title flag.
pub type Setup = (DataType, Seq<char>, Seq<char>, Seq<char>, bool);

/// The `add_title` setting: nothing when absent, the flag when it holds a
/// boolean, and an error otherwise.
pub open spec fn add_title_setting(c: Seq<Setting>) -> Option<Result<bool, ConfigFault>> {
    match setting_of(c, "add_title"@) {
        None => None,
        Some(SettingValue::Flag(b)) => Some(Ok(b)),
        Some(v) => Some(Err(ConfigFault::NotABool("add_title"@, v))),
    }
}

/// The settings that the table `cfg` gives, or the first fault in it: the
/// defaults when there is no table; else `input_type`, `marker`,
/// `save_path` and `path_key` must be strings and `add_title` a boolean,
/// checked in that order, and the marker must make a valid pattern.
pub open spec fn config_outcome(cfg: Option<Seq<Setting>>) -> Result<Setup, ConfigFault> {
    match cfg {
        None => Ok((DataType::Json, "collect"@, "collect.json"@, "path"@, true)),
        Some(c) => {
            let it = text_setting(c, "input_type"@);
            let mk = text_setting(c, "marker"@);
            let sp = text_setting(c, "save_path"@);
            let pk = text_setting(c, "path_key"@);
            let at = add_title_setting(c);
            match (it, mk, sp, pk, at) {
                (Some(Err(f)), _, _, _, _) => Err(f),
                (_, Some(Err(f)), _, _, _) => Err(f),
                (_, _, Some(Err(f)), _, _) => Err(f),
                (_, _, _, Some(Err(f)), _) => Err(f),
                (_, _, _, _, Some(Err(f))) => Err(f),
                _ => {
                    let ty = match it {
                        Some(Ok(t)) => data_type_for(t),
                        _ => DataType::Json,
                    };
                    let marker = text_or(mk, "collect"@);
                    let title = match at {
                        Some(Ok(b)) => b,
                        _ => true,
                    };
                    if regex_accepts(collect_pattern(marker)) {
                        Ok(
                            (
                                ty,
                                marker,
                                text_or(sp, "collect.json"@),
                                text_or(pk, "path"@),
                                title,
                            ),
                        )
                    } else {
                        Err(ConfigFault::BadMarker(marker))
                    }
                },
            }
        },
    }
}

/// Each name of `gathered` with its object as a JSON value.
pub open spec fn as_objects(gathered: Map<Seq<char>, ObjectTree>) -> ObjectTree {
    gathered.map_values(|f: ObjectTree| JsonTree::Object(f))
}

/// The object that the parser for `ty` reads from `text`, if it reads
/// one.
pub open spec fn parsed_object(ty: DataType, text: Seq<char>) -> Option<ObjectTree> {
    match ty {
        DataType::Json => json_object_tree(text),
        DataType::Yaml => yaml_object_tree(text),
        DataType::Toml => toml_object_tree(text),
    }
}

impl Config {
    /// The pattern of this marker's data block.
    pub open spec fn pattern(&self) -> Seq<char> {
        collect_pattern(self.marker@)
    }

    /// The object read from the data block of `content`, when it has one that
    /// parses.
    pub open spec fn block_object(&self, content: Seq<char>) -> Option<ObjectTree> {
        match marked_block(self.pattern(), content) {
            Some((_, _, t)) => parsed_object(self.input_type, t),
            None => None,
        }
    }

    /// `content` after collecting: the whole comment cut out when its data
    /// parsed, else unchanged.
    pub open spec fn drained(&self, content: Seq<char>) -> Seq<char> {
        match marked_block(self.pattern(), content) {
            Some((s, e, t)) => if parsed_object(self.input_type, t) is Some {
                cut_span(content, s, e)
            } else {
                content
            },
            None => content,
        }
    }

    /// The object saved for a chapter whose data block reads as `f`: `f`,
    /// with the chapter's title under `title` when `add_title` is set, and
    /// then its path `p` under `path_key`.
    pub open spec fn post_object(&self, f: ObjectTree, name: Seq<char>, p: Seq<char>) -> ObjectTree {
        let titled = if self.add_title {
            f.insert("title"@, JsonTree::Text(name))
        } else {
            f
        };
        titled.insert(self.path_key@, JsonTree::Text(p))
    }

    /// What a chapter adds to the gathered data: under its name, the object
    /// of its data block with its path (and title) added. Chapters without a
    /// path, a block, or data that parses add nothing.
    pub open spec fn record(&self, ch: Chapter) -> Option<(Seq<char>, ObjectTree)> {
        match ch.path {
            Some(p) => match self.block_object(ch.content@) {
                Some(f) => Some((ch.name@, self.post_object(f, ch.name@, p@))),
                None => None,
            },
            None => None,
        }
    }

    /// The data gathered from `chapters`, in order: a later chapter with the
    /// same name replaces an earlier one.
    pub open spec fn gathered(&self, chapters: Seq<Chapter>) -> Map<Seq<char>, ObjectTree>
        decreases chapters.len(),
    {
        if chapters.len() == 0 {
            Map::empty()
        } else {
            let before = self.gathered(chapters.drop_last());
            match self.record(chapters.last()) {
                Some((p, f)) => before.insert(p, f),
                None => before,
            }
        }
    }

    /// A chapter after collecting: its data block cut out when it has a
    /// path and its data parsed.
    pub open spec fn chapter_after(&self, old: Chapter, new: Chapter) -> bool {
        &&& new.name == old.name
        &&& new.path == old.path
        &&& new.content@ == if old.path is Some {
            self.drained(old.content@)
        } else {
            old.content@
        }
    }

    /// These settings as plain values.
    pub open spec fn setup(&self) -> Setup {
        (self.input_type, self.marker@, self.save_path@, self.path_key@, self.add_title)
    }

    /// The settings that `settings` (the preprocessor's table, if the book
    /// has one) give, or the first fault in them.
    pub fn new(settings: Option<&Settings>) -> (res: Result<Config, ConfigError>)
        ensures
            match (res, config_outcome(table_of(settings))) {
                (Ok(c), Ok(v)) => c.setup() == v,
                (Err(e), Err(f)) => e@ == f,
                _ => false,
            },
    {
        let mut config = Config {
            input_type: DataType::Json,
            marker: "collect".to_owned(),
            save_path: "collect.json".to_owned(),
            path_key: "path".to_owned(),
            add_title: true,
        };
        let cfg = match settings {
            None => return Ok(config),
            Some(c) => c,
        };
        match get_value_to_str(cfg, "input_type") {
            Some(Ok(x)) => config.input_type = DataType::new(x.as_str()),
            Some(Err(e)) => return Err(e),
            None => {},
        }
        match get_value_to_str(cfg, "marker") {
            Some(Ok(x)) => config.marker = x,
            Some(Err(e)) => return Err(e),
            None => {},
        }
        match get_value_to_str(cfg, "save_path") {
            Some(Ok(x)) => config.save_path = x,
            Some(Err(e)) => return Err(e),
            None => {},
        }
        match get_value_to_str(cfg, "path_key") {
            Some(Ok(x)) => config.path_key = x,
            Some(Err(e)) => return Err(e),
            None => {},
        }
        match cfg.get("add_title") {
            Some(SettingValue::Flag(b)) => config.add_title = b,
            Some(v) => return Err(ConfigError::NotABool { key: "add_title".to_owned(), found: v }),
            None => {},
        }
        match config.regex() {
            Ok(_) => {},
            Err(e) => return Err(e),
        }
        Ok(config)
    }

    /// The regex that finds this marker's data block, or an error when the
    /// marker does not make a valid pattern.
    pub fn regex(&self) -> (res: Result<MarkerRegex, ConfigError>)
        ensures
            res is Ok <==> regex_accepts(collect_pattern(self.marker@)),
            res matches Ok(r) ==> r.pattern() == collect_pattern(self.marker@),
            res matches Err(e) ==> e@ == ConfigFault::BadMarker(self.marker@),
    {
        let pattern = build_marker_pattern(self.marker.as_str(), "((?s).*?)-->");
        match compile_regex(pattern.as_str()) {
            Some(r) => Ok(r),
            None => Err(ConfigError::BadMarker { marker: self.marker.clone() }),
        }
    }
}

impl Config {
    /// Reads the data block of `content` with the parser of `input_type`
    /// and, when it parses, cuts the whole comment out of `content` and
    /// returns the object read. `re` is this marker's regex.
    pub fn collect_and_drain(&self, re: &MarkerRegex, content: &mut String) -> (res: Option<
        JsonObject,
    >)
        requires
            re.pattern() == self.pattern(),
        ensures
            res is Some <==> self.block_object(old(content)@) is Some,
            res matches Some(m) ==> self.block_object(old(content)@) == Some(object_tree(m)),
            final(content)@ == self.drained(old(content)@),
    {
        match first_captures(re, content.as_str()) {
            Some(((s, e), Some((a, b)))) => {
                let text = span_to_string(content.as_str(), a, b);
                let parsed = match self.input_type {
                    DataType::Json => parse_json_object(text.as_str()),
                    DataType::Yaml => parse_yaml_object(text.as_str()),
                    DataType::Toml => parse_toml_object(text.as_str()),
                };
                match parsed {
                    Some(m) => {
                        remove_span(content, s, e);
                        Some(m)
                    },
                    None => None,
                }
            },
            _ => None,
        }
    }

    /// Collects the data blocks of all `chapters` that have a path, in
    /// order: each block that parses is cut out of its chapter, and its
    /// object, with the chapter's title added under `title` when
    /// `add_title` is set and its path under `path_key`, is stored under
    /// the chapter's name. Fails, changing nothing, when the marker does not make a valid
    /// pattern.
    pub fn collect_book(&self, chapters: &mut Vec<Chapter>) -> (res: Result<
        JsonObject,
        ConfigError,
    >)
        ensures
            res is Err <==> !regex_accepts(self.pattern()),
            res matches Err(e) ==> e@ == ConfigFault::BadMarker(self.marker@) && final(chapters)@
                == old(chapters)@,
            res matches Ok(m) ==> {
                &&& object_tree(m) == as_objects(self.gathered(old(chapters)@))
                &&& final(chapters).len() == old(chapters).len()
                &&& forall|i: int|
                    0 <= i < old(chapters).len() ==> self.chapter_after(
                        #[trigger] old(chapters)@[i],
                        final(chapters)@[i],
                    )
            },
    {
        let re = match self.regex() {
            Ok(r) => r,
            Err(e) => return Err(e),
        };
        let mut map = new_object();
        let n = chapters.len();
        let ghost start = chapters@;
        let mut i: usize = 0;
        while i < n
            invariant
                re.pattern() == self.pattern(),
                i <= n,
                n == chapters.len(),
                start.len() == n,
                object_tree(map) == as_objects(self.gathered(start.take(i as int))),
                forall|j: int| 0 <= j < i ==> self.chapter_after(#[trigger] start[j], chapters@[j]),
                forall|j: int| i <= j < n ==> #[trigger] chapters@[j] == start[j],
            decreases n - i,
        {
            proof {
                assert(start.take(i + 1).drop_last() =~= start.take(i as int));
                assert(start.take(i + 1).last() == start[i as int]);
            }
            match copy_path(&chapters[i].path) {
                Some(path) => {
                    let mut content = chapters[i].content.clone();
                    let got = self.collect_and_drain(&re, &mut content);
                    let name = chapters[i].name.clone();
                    let kept_path = copy_path(&chapters[i].path);
                    chapters.set(i, Chapter { name: name.clone(), path: kept_path, content });
                    match got {
                        Some(sub) => {
                            let mut sub = sub;
                            if self.add_title {
                                insert_text(&mut sub, "title".to_owned(), name.clone());
                            }
                            insert_text(&mut sub, self.path_key.clone(), path);
                            insert_object(&mut map, name, sub);
                        },
                        None => {},
                    }
                },
                None => {},
            }
            i = i + 1;
        }
        proof {
            assert(start.take(n as int) =~= start);
        }
        Ok(map)
    }
}

impl Config {
    /// Whether chapter `i` of `chapters` is named `n`, has a path, and its
    /// data block parsed.
    pub open spec fn collected_at(&self, chapters: Seq<Chapter>, i: int, n: Seq<char>) -> bool {
        &&& 0 <= i < chapters.len()
        &&& chapters[i].name@ == n
        &&& chapters[i].path is Some
        &&& self.block_object(chapters[i].content@) is Some
    }

    /// Whether `object` is what chapter `ch` saves: the object read from
    /// its data block, with its title when `add_title` is set, and its path
    /// under `path_key`.
    pub open spec fn saved_for(&self, object: ObjectTree, ch: Chapter) -> bool {
        &&& object == self.post_object(
            self.block_object(ch.content@)->0,
            ch.name@,
            ch.path->0@,
        )
        &&& object.contains_key(self.path_key@)
        &&& object[self.path_key@] == JsonTree::Text(ch.path->0@)
    }
}

/// Every gathered object is saved under the name of a chapter with a path
/// whose data block parsed, and it is exactly that block's object with the
/// chapter's path under `path_key` (and its title under `title` when
/// `add_title` is set).
pub proof fn lemma_gathered_from_chapter(cfg: &Config, chapters: Seq<Chapter>, n: Seq<char>)
    requires
        cfg.gathered(chapters).contains_key(n),
    ensures
        exists|i: int|
            #[trigger] cfg.collected_at(chapters, i, n) && cfg.saved_for(
                cfg.gathered(chapters)[n],
                chapters[i],
            ),
    decreases chapters.len(),
{
    let last = chapters.len() - 1;
    let from_last = match cfg.record(chapters.last()) {
        Some((q, _)) => q == n,
        None => false,
    };
    if from_last {
        assert(chapters[last] == chapters.last());
        assert(cfg.collected_at(chapters, last, n));
    } else {
        let before = chapters.drop_last();
        lemma_gathered_from_chapter(cfg, before, n);
        let i = choose|i: int|
            #[trigger] cfg.collected_at(before, i, n) && cfg.saved_for(
                cfg.gathered(before)[n],
                before[i],
            );
        assert(chapters[i] == before[i]);
        assert(cfg.collected_at(chapters, i, n));
    }
}

/// Gathering never loses a post: adding a chapter keeps every name that
/// was already gathered.
pub proof fn lemma_gathered_keeps_names(cfg: &Config, chapters: Seq<Chapter>, ch: Chapter, n: Seq<char>)
    requires
        cfg.gathered(chapters).contains_key(n),
    ensures
        cfg.gathered(chapters.push(ch)).contains_key(n),
{
    assert(chapters.push(ch).drop_last() =~= chapters);
    assert(chapters.push(ch).last() == ch);
}

/// The latest chapter wins: after a chapter that saves `f` under its name
/// `n`, the gathered data holds exactly `f` under `n`, and every other name
/// keeps its object.
pub proof fn lemma_gathered_latest_wins(cfg: &Config, chapters: Seq<Chapter>, ch: Chapter)
    ensures
        cfg.record(ch) matches Some((n, f)) ==> cfg.gathered(chapters.push(ch)) == cfg.gathered(
            chapters,
        ).insert(n, f),
        cfg.record(ch) is None ==> cfg.gathered(chapters.push(ch)) == cfg.gathered(chapters),
{
    assert(chapters.push(ch).drop_last() =~= chapters);
    assert(chapters.push(ch).last() == ch);
}

/// Gathering is complete: every chapter with a path whose data block
/// parses is saved under its name.
pub proof fn lemma_gathered_complete(cfg: &Config, chapters: Seq<Chapter>, i: int)
    requires
        cfg.collected_at(chapters, i, chapters[i].name@),
    ensures
        cfg.gathered(chapters).contains_key(chapters[i].name@),
    decreases chapters.len(),
{
    let before = chapters.drop_last();
    if i == chapters.len() - 1 {
        assert(chapters.last() == chapters[i]);
    } else {
        assert(before[i] == chapters[i]);
        assert(cfg.collected_at(before, i, before[i].name@));
        lemma_gathered_complete(cfg, before, i);
        assert(before.push(chapters.last()) =~= chapters);
        lemma_gathered_keeps_names(cfg, before, chapters.last(), chapters[i].name@);
    }
}

/// The names gathered are exactly those of the chapters with a path whose
/// data block parses.
pub proof fn lemma_gathered_names(cfg: &Config, chapters: Seq<Chapter>, n: Seq<char>)
    ensures
        cfg.gathered(chapters).contains_key(n) <==> exists|i: int|
            #[trigger] cfg.collected_at(chapters, i, n),
{
    if cfg.gathered(chapters).contains_key(n) {
        lemma_gathered_from_chapter(cfg, chapters, n);
    }
    if exists|i: int| #[trigger] cfg.collected_at(chapters, i, n) {
        let i = choose|i: int| #[trigger] cfg.collected_at(chapters, i, n);
        lemma_gathered_complete(cfg, chapters, i);
    }
}

/// Settings are taken as given: each setting of the right kind gives its
/// value, each absent one its default, and one of the wrong kind an error.
pub proof fn lemma_collector_settings_taken(c: Seq<Setting>)
    ensures
        (text_setting(c, "input_type"@) is Some && text_setting(c, "input_type"@)->0 is Err)
            ==> config_outcome(Some(c)) is Err,
        (text_setting(c, "marker"@) is Some && text_setting(c, "marker"@)->0 is Err)
            ==> config_outcome(Some(c)) is Err,
        (text_setting(c, "save_path"@) is Some && text_setting(c, "save_path"@)->0 is Err)
            ==> config_outcome(Some(c)) is Err,
        (text_setting(c, "path_key"@) is Some && text_setting(c, "path_key"@)->0 is Err)
            ==> config_outcome(Some(c)) is Err,
        (add_title_setting(c) is Some && add_title_setting(c)->0 is Err) ==> config_outcome(
            Some(c),
        ) is Err,
        config_outcome(Some(c)) matches Ok(v) ==> {
            &&& (text_setting(c, "input_type"@) matches Some(Ok(t)) ==> v.0 == data_type_for(t))
            &&& (text_setting(c, "input_type"@) is None ==> v.0 == DataType::Json)
            &&& (text_setting(c, "marker"@) matches Some(Ok(t)) ==> v.1 == t)
            &&& (text_setting(c, "marker"@) is None ==> v.1 == "collect"@)
            &&& (text_setting(c, "save_path"@) matches Some(Ok(t)) ==> v.2 == t)
            &&& (text_setting(c, "save_path"@) is None ==> v.2 == "collect.json"@)
            &&& (text_setting(c, "path_key"@) matches Some(Ok(t)) ==> v.3 == t)
            &&& (text_setting(c, "path_key"@) is None ==> v.3 == "path"@)
            &&& (setting_of(c, "add_title"@) matches Some(SettingValue::Flag(b)) ==> v.4 == b)
            &&& (setting_of(c, "add_title"@) is None ==> v.4 == true)
        },
{
}

/// What to save of the gathered data `map`: nothing when it is empty, else
/// its JSON text.
pub fn data_to_save(map: &JsonObject) -> (r: Option<String>)
    ensures
        r is None <==> object_tree(*map).len() == 0,
        r matches Some(t) ==> t@ == object_json(*map),
{
    if object_len(map) > 0 {
        Some(object_to_json(map))
    } else {
        None
    }
}

/// The collector preprocessor.
pub struct Collector;

impl Collector {
    /// The collector.
    pub fn new() -> (r: Collector)
        ensures
            r == Collector,
    {
        Collector
    }

    /// The name under which the book's settings configure it.
    pub fn name(&self) -> (r: &'static str)
        ensures
            r@ == "collector"@,
    {
        "collector"
    }
}

} // verus!
