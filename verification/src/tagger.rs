//! The tagger: reads a tag list `<!-- tags: a; b -->` from each chapter,
//! removes it, and builds two indexes: the posts of each tag and the tags
//! of each post.

use vstd::prelude::*;

use crate::book::{copy_path, Chapter};
use crate::index::{
    is_post_map_json, is_tag_map_json, post_index_map, posts_view, tag_index_map, PostIndex,
    PostMap, PostRef, TagIndex, TagMap,
};
use crate::marker::{
    build_marker_pattern, compile_regex, first_captures, marked_block, marker_pattern,
    regex_accepts, MarkerRegex,
};
use crate::settings::{
    get_value_to_str, table_of, text_or, text_setting, ConfigError, ConfigFault, Setting, Settings,
};
use crate::span::{cut_span, remove_span, span_to_string};
use crate::text::{parse_tags, tag_list};

verus! {

/// The tail of the tagger's pattern: an optional `:`, then the tag list,
/// lazily up to the first `-->`, with `.` matching newlines.
pub open spec fn tags_tail() -> Seq<char> {
    ":?((?s).*?)-->"@
}

/// The pattern that finds the tag list of `marker`.
pub open spec fn tags_pattern(marker: Seq<char>) -> Seq<char> {
    marker_pattern(marker, tags_tail())
}

/// Settings of the tagger.
pub struct Config {
    /// The word after `<!--` that marks a tag list.
    pub marker: String,
    /// Where the posts of each tag are saved, relative to the book's source
    /// directory.
    pub tag2posts_path: String,
    /// Where the tags of each post are saved, relative to the book's source
    /// directory.
    pub post2tags_path: String,
    /// What separates the tags of a list.
    pub split: String,
}

/// The settings as plain values: marker, the two save paths, separator.
pub type Setup = (Seq<char>, Seq<char>, Seq<char>, Seq<char>);

/// The settings that the table `cfg` gives, or the first fault in it: the
/// defaults when there is no table; else `marker`, `tag2posts_path`,
/// `post2tags_path` and `split` must be strings, checked in that order, and
/// the marker must make a valid pattern.
pub open spec fn config_outcome(cfg: Option<Seq<Setting>>) -> Result<Setup, ConfigFault> {
    match cfg {
        None => Ok(("tags"@, "tag2posts.json"@, "post2tags.json"@, ";"@)),
        Some(c) => {
            let mk = text_setting(c, "marker"@);
            let tp = text_setting(c, "tag2posts_path"@);
            let pt = text_setting(c, "post2tags_path"@);
            let sp = text_setting(c, "split"@);
            match (mk, tp, pt, sp) {
                (Some(Err(f)), _, _, _) => Err(f),
                (_, Some(Err(f)), _, _) => Err(f),
                (_, _, Some(Err(f)), _) => Err(f),
                (_, _, _, Some(Err(f))) => Err(f),
                _ => {
                    let marker = text_or(mk, "tags"@);
                    if regex_accepts(tags_pattern(marker)) {
                        Ok(
                            (
                                marker,
                                text_or(tp, "tag2posts.json"@),
                                text_or(pt, "post2tags.json"@),
                                text_or(sp, ";"@),
                            ),
                        )
                    } else {
                        Err(ConfigFault::BadMarker(marker))
                    }
                },
            }
        },
    }
}

/// The posts that `m` lists under `tag`; none when it has no such tag.
pub open spec fn posts_of(m: TagMap, tag: Seq<char>) -> Seq<PostRef> {
    if m.contains_key(tag) {
        m[tag]
    } else {
        Seq::empty()
    }
}

/// `m` with `post` appended to the posts of each of `tags`, in order.
pub open spec fn add_post(m: TagMap, tags: Seq<Seq<char>>, post: PostRef) -> TagMap
    decreases tags.len(),
{
    if tags.len() == 0 {
        m
    } else {
        let before = add_post(m, tags.drop_last(), post);
        before.insert(tags.last(), posts_of(before, tags.last()).push(post))
    }
}

/// Whether `m` lists, under `tag`, some post at `path`.
pub open spec fn lists_path(m: TagMap, tag: Seq<char>, path: Seq<char>) -> bool {
    exists|j: int| 0 <= j < posts_of(m, tag).len() && #[trigger] posts_of(m, tag)[j].1 == path
}

/// Adding a post keeps every post already listed, at its place.
pub proof fn lemma_add_post_keeps(m: TagMap, tags: Seq<Seq<char>>, post: PostRef, t: Seq<char>)
    ensures
        posts_of(m, t).len() <= posts_of(add_post(m, tags, post), t).len(),
        forall|j: int|
            0 <= j < posts_of(m, t).len() ==> posts_of(add_post(m, tags, post), t)[j] == posts_of(
                m,
                t,
            )[j],
    decreases tags.len(),
{
    if tags.len() > 0 {
        lemma_add_post_keeps(m, tags.drop_last(), post, t);
    }
}

/// After adding a post under `tags`, each of them lists it.
pub proof fn lemma_add_post_lists(m: TagMap, tags: Seq<Seq<char>>, post: PostRef, k: int)
    requires
        0 <= k < tags.len(),
    ensures
        lists_path(add_post(m, tags, post), tags[k], post.1),
    decreases tags.len(),
{
    let before = add_post(m, tags.drop_last(), post);
    let after = add_post(m, tags, post);
    if k == tags.len() - 1 {
        let j = posts_of(before, tags[k]).len() as int;
        assert(posts_of(after, tags[k])[j] == post);
    } else {
        lemma_add_post_lists(m, tags.drop_last(), post, k);
        assert(tags.drop_last()[k] == tags[k]);
        let j = choose|j: int|
            0 <= j < posts_of(before, tags[k]).len() && #[trigger] posts_of(before, tags[k])[j].1
                == post.1;
        assert(posts_of(after, tags[k])[j] == posts_of(before, tags[k])[j]);
    }
}

impl Config {
    /// These settings as plain values.
    pub open spec fn setup(&self) -> Setup {
        (self.marker@, self.tag2posts_path@, self.post2tags_path@, self.split@)
    }

    /// The pattern of this marker's tag list.
    pub open spec fn pattern(&self) -> Seq<char> {
        tags_pattern(self.marker@)
    }

    /// The tag list of `content`: the byte span of the whole comment and
    /// the tags it lists.
    pub open spec fn tag_block(&self, content: Seq<char>) -> Option<(int, int, Seq<Seq<char>>)> {
        match marked_block(self.pattern(), content) {
            Some((s, e, t)) => Some((s, e, tag_list(t, self.split@))),
            None => None,
        }
    }

    /// The indexes built from `chapters`, in order: the posts of each tag,
    /// and the tags of each post path (a later chapter with the same path
    /// replaces the tags of an earlier one). Chapters without a path or a
    /// tag list add nothing.
    pub open spec fn indexes(&self, chapters: Seq<Chapter>) -> (TagMap, PostMap)
        decreases chapters.len(),
    {
        if chapters.len() == 0 {
            (TagMap::empty(), PostMap::empty())
        } else {
            let (t, p) = self.indexes(chapters.drop_last());
            let ch = chapters.last();
            match ch.path {
                Some(path) => match self.tag_block(ch.content@) {
                    Some((_, _, tags)) => (
                        add_post(t, tags, (ch.name@, path@)),
                        p.insert(path@, tags),
                    ),
                    None => (t, p),
                },
                None => (t, p),
            }
        }
    }

    /// A chapter after tagging: its tag list cut out when it has a path and
    /// a tag list.
    pub open spec fn chapter_after(&self, old: Chapter, new: Chapter) -> bool {
        &&& new.name == old.name
        &&& new.path == old.path
        &&& new.content@ == match (old.path, self.tag_block(old.content@)) {
            (Some(_), Some((s, e, _))) => cut_span(old.content@, s, e),
            _ => old.content@,
        }
    }

    /// The settings that `settings` (the preprocessor's table, if the book
    /// has one) give, or the first fault in them.
    pub fn new(settings: Option<&Settings>) -> (res: Result<Config, ConfigError>)
        ensures
            match (res, config_outcome(table_of(settings))) {
                (Ok(c), Ok(v)) => c.setup() == v,
                (Err(e), Err(f)) => e@ == f,
                _ => false,
            },
    {
        let mut config = Config {
            marker: "tags".to_owned(),
            tag2posts_path: "tag2posts.json".to_owned(),
            post2tags_path: "post2tags.json".to_owned(),
            split: ";".to_owned(),
        };
        let cfg = match settings {
            None => return Ok(config),
            Some(c) => c,
        };
        match get_value_to_str(cfg, "marker") {
            Some(Ok(x)) => config.marker = x,
            Some(Err(e)) => return Err(e),
            None => {},
        }
        match get_value_to_str(cfg, "tag2posts_path") {
            Some(Ok(x)) => config.tag2posts_path = x,
            Some(Err(e)) => return Err(e),
            None => {},
        }
        match get_value_to_str(cfg, "post2tags_path") {
            Some(Ok(x)) => config.post2tags_path = x,
            Some(Err(e)) => return Err(e),
            None => {},
        }
        match get_value_to_str(cfg, "split") {
            Some(Ok(x)) => config.split = x,
            Some(Err(e)) => return Err(e),
            None => {},
        }
        match config.regex() {
            Ok(_) => {},
            Err(e) => return Err(e),
        }
        Ok(config)
    }

    /// The regex that finds this marker's tag list, or an error when the
    /// marker does not make a valid pattern.
    pub fn regex(&self) -> (res: Result<MarkerRegex, ConfigError>)
        ensures
            res is Ok <==> regex_accepts(self.pattern()),
            res matches Ok(r) ==> r.pattern() == self.pattern(),
            res matches Err(e) ==> e@ == ConfigFault::BadMarker(self.marker@),
    {
        let pattern = build_marker_pattern(self.marker.as_str(), ":?((?s).*?)-->");
        match compile_regex(pattern.as_str()) {
            Some(r) => Ok(r),
            None => Err(ConfigError::BadMarker { marker: self.marker.clone() }),
        }
    }
}

impl Config {
    /// Reads the tag list of `content`: when there is one, records its
    /// tags as those of the post at `path`, appends the post (`name`,
    /// `path`) to the posts of each tag, and cuts the whole comment out of
    /// `content`. `re` is this marker's regex.
    pub fn collect_and_drain(
        &self,
        re: &MarkerRegex,
        content: &mut String,
        name: &str,
        path: String,
        tag2posts: &mut TagIndex,
        post2tags: &mut PostIndex,
    )
        requires
            re.pattern() == self.pattern(),
        ensures
            match self.tag_block(old(content)@) {
                Some((s, e, tags)) => {
                    &&& final(content)@ == cut_span(old(content)@, s, e)
                    &&& post_index_map(*final(post2tags)) == post_index_map(*old(post2tags)).insert(
                        path@,
                        tags,
                    )
                    &&& tag_index_map(*final(tag2posts)) == add_post(
                        tag_index_map(*old(tag2posts)),
                        tags,
                        (name@, path@),
                    )
                },
                None => {
                    &&& final(content)@ == old(content)@
                    &&& *final(post2tags) == *old(post2tags)
                    &&& *final(tag2posts) == *old(tag2posts)
                },
            },
    {
        match first_captures(re, content.as_str()) {
            Some(((s, e), Some((a, b)))) => {
                let text = span_to_string(content.as_str(), a, b);
                let tags = parse_tags(text.as_str(), self.split.as_str());
                let ghost old_index = tag_index_map(*tag2posts);
                let mut i: usize = 0;
                while i < tags.len()
                    invariant
                        i <= tags.len(),
                        tag_index_map(*tag2posts) == add_post(
                            old_index,
                            tags.deep_view().take(i as int),
                            (name@, path@),
                        ),
                    decreases tags.len() - i,
                {
                    let tag = tags[i].clone();
                    let mut list = match tag2posts.get(&tag) {
                        Some(l) => l,
                        None => Vec::new(),
                    };
                    let ghost before = tag_index_map(*tag2posts);
                    let ghost old_list = list@;
                    list.push((name.to_owned(), path.clone()));
                    proof {
                        let d = tags.deep_view();
                        assert(d.take(i + 1).drop_last() =~= d.take(i as int));
                        assert(d.take(i + 1).last() == tag@);
                        assert(posts_view(list@) =~= posts_view(old_list).push((name@, path@)));
                        assert(posts_view(old_list) =~= posts_of(before, tag@));
                    }
                    tag2posts.insert(tag, list);
                    i = i + 1;
                }
                proof {
                    assert(tags.deep_view().take(tags.len() as int) =~= tags.deep_view());
                }
                post2tags.insert(path, tags);
                remove_span(content, s, e);
            },
            _ => {},
        }
    }
}

impl Config {
    /// Reads the tag lists of all `chapters`, in order, cutting each out of
    /// its chapter, and returns the posts of each tag and the tags of each
    /// post. Fails, changing nothing, when the marker does not make a valid
    /// pattern.
    pub fn tag_book(&self, chapters: &mut Vec<Chapter>) -> (res: Result<
        (TagIndex, PostIndex),
        ConfigError,
    >)
        ensures
            res is Err <==> !regex_accepts(self.pattern()),
            res matches Err(e) ==> e@ == ConfigFault::BadMarker(self.marker@) && final(chapters)@
                == old(chapters)@,
            res matches Ok((t, p)) ==> {
                &&& (tag_index_map(t), post_index_map(p)) == self.indexes(old(chapters)@)
                &&& final(chapters).len() == old(chapters).len()
                &&& forall|i: int|
                    0 <= i < old(chapters).len() ==> self.chapter_after(
                        #[trigger] old(chapters)@[i],
                        final(chapters)@[i],
                    )
            },
    {
        let re = match self.regex() {
            Ok(r) => r,
            Err(e) => return Err(e),
        };
        let mut tag2posts = TagIndex::new();
        let mut post2tags = PostIndex::new();
        let n = chapters.len();
        let ghost start = chapters@;
        let mut i: usize = 0;
        while i < n
            invariant
                re.pattern() == self.pattern(),
                i <= n,
                n == chapters.len(),
                start.len() == n,
                (tag_index_map(tag2posts), post_index_map(post2tags)) == self.indexes(
                    start.take(i as int),
                ),
                forall|j: int| 0 <= j < i ==> self.chapter_after(#[trigger] start[j], chapters@[j]),
                forall|j: int| i <= j < n ==> #[trigger] chapters@[j] == start[j],
            decreases n - i,
        {
            proof {
                assert(start.take(i + 1).drop_last() =~= start.take(i as int));
                assert(start.take(i + 1).last() == start[i as int]);
            }
            match copy_path(&chapters[i].path) {
                Some(path) => {
                    let mut content = chapters[i].content.clone();
                    let name = chapters[i].name.clone();
                    self.collect_and_drain(
                        &re,
                        &mut content,
                        name.as_str(),
                        path,
                        &mut tag2posts,
                        &mut post2tags,
                    );
                    let kept_path = copy_path(&chapters[i].path);
                    chapters.set(i, Chapter { name, path: kept_path, content });
                },
                None => {},
            }
            i = i + 1;
        }
        proof {
            assert(start.take(n as int) =~= start);
        }
        Ok((tag2posts, post2tags))
    }
}

/// The two indexes agree: every tag that the post index gives a post at
/// `path`, the tag index lists with a post at `path`.
pub proof fn lemma_indexes_agree(cfg: &Config, chapters: Seq<Chapter>, path: Seq<char>, k: int)
    requires
        cfg.indexes(chapters).1.contains_key(path),
        0 <= k < cfg.indexes(chapters).1[path].len(),
    ensures
        lists_path(cfg.indexes(chapters).0, cfg.indexes(chapters).1[path][k], path),
    decreases chapters.len(),
{
    let (t0, p0) = cfg.indexes(chapters.drop_last());
    let ch = chapters.last();
    let tag = cfg.indexes(chapters).1[path][k];
    match (ch.path, cfg.tag_block(ch.content@)) {
        (Some(cp), Some((_, _, tags))) => {
            if cp@ == path {
                lemma_add_post_lists(t0, tags, (ch.name@, cp@), k);
            } else {
                lemma_indexes_agree(cfg, chapters.drop_last(), path, k);
                let j = choose|j: int|
                    0 <= j < posts_of(t0, tag).len() && #[trigger] posts_of(t0, tag)[j].1 == path;
                lemma_add_post_keeps(t0, tags, (ch.name@, cp@), tag);
                assert(posts_of(cfg.indexes(chapters).0, tag)[j].1 == path);
            }
        },
        _ => {
            lemma_indexes_agree(cfg, chapters.drop_last(), path, k);
        },
    }
}

impl Config {
    /// The files to save, each as its path (relative to the book's source
    /// directory) and its JSON text: the posts of each tag, then the tags of
    /// each post, each only when its index is not empty. The order of the
    /// keys in each text is the hash map's, and left open.
    pub fn index_files(&self, tag2posts: &TagIndex, post2tags: &PostIndex) -> (r: Vec<
        (String, String),
    >)
        ensures
            r.len() == (if tag_index_map(*tag2posts).len() > 0 {
                1int
            } else {
                0int
            }) + (if post_index_map(*post2tags).len() > 0 {
                1int
            } else {
                0int
            }),
            tag_index_map(*tag2posts).len() > 0 ==> r@[0].0@ == self.tag2posts_path@
                && is_tag_map_json(tag_index_map(*tag2posts), r@[0].1@),
            post_index_map(*post2tags).len() > 0 ==> r@[r.len() - 1].0@ == self.post2tags_path@
                && is_post_map_json(post_index_map(*post2tags), r@[r.len() - 1].1@),
    {
        let mut r: Vec<(String, String)> = Vec::new();
        if tag2posts.len() > 0 {
            r.push((self.tag2posts_path.clone(), tag2posts.to_json()));
        }
        if post2tags.len() > 0 {
            r.push((self.post2tags_path.clone(), post2tags.to_json()));
        }
        r
    }
}

/// Adding a post keeps every tag and lists every tag it is added under.
pub proof fn lemma_add_post_keys(m: TagMap, tags: Seq<Seq<char>>, post: PostRef)
    ensures
        forall|t: Seq<char>| m.contains_key(t) ==> #[trigger] add_post(m, tags, post).contains_key(t),
        forall|k: int| 0 <= k < tags.len() ==> add_post(m, tags, post).contains_key(#[trigger] tags[k]),
    decreases tags.len(),
{
    if tags.len() > 0 {
        lemma_add_post_keys(m, tags.drop_last(), post);
        assert forall|t: Seq<char>| m.contains_key(t) implies #[trigger] add_post(
            m,
            tags,
            post,
        ).contains_key(t) by {
            assert(add_post(m, tags.drop_last(), post).contains_key(t));
        }
        assert forall|k: int| 0 <= k < tags.len() implies add_post(m, tags, post).contains_key(
            #[trigger] tags[k],
        ) by {
            if k < tags.len() - 1 {
                assert(tags.drop_last()[k] == tags[k]);
            }
        }
    }
}

impl Config {
    /// Whether chapter `i` of `chapters` has a path and a tag list.
    pub open spec fn tagged_at(&self, chapters: Seq<Chapter>, i: int) -> bool {
        &&& 0 <= i < chapters.len()
        &&& chapters[i].path is Some
        &&& self.tag_block(chapters[i].content@) is Some
    }

    /// The tags that the tag list of `content` gives; none without one.
    pub open spec fn listed_tags(&self, content: Seq<char>) -> Seq<Seq<char>> {
        match self.tag_block(content) {
            Some((_, _, tags)) => tags,
            None => Seq::empty(),
        }
    }
}

/// Adding a post leaves the posts of every other tag as they were.
pub proof fn lemma_add_post_others(m: TagMap, tags: Seq<Seq<char>>, post: PostRef, t: Seq<char>)
    requires
        !tags.contains(t),
    ensures
        posts_of(add_post(m, tags, post), t) == posts_of(m, t),
    decreases tags.len(),
{
    if tags.len() > 0 {
        assert(!tags.drop_last().contains(t)) by {
            if tags.drop_last().contains(t) {
                let k = choose|k: int| 0 <= k < tags.drop_last().len() && tags.drop_last()[k] == t;
                assert(tags[k] == t);
            }
        }
        assert(tags.last() != t) by {
            if tags.last() == t {
                assert(tags[tags.len() - 1] == t);
            }
        }
        lemma_add_post_others(m, tags.drop_last(), post, t);
    }
}

/// A tagged chapter records its tags as those of its path, replacing any
/// earlier ones, and appends its post only to the posts of its own tags.
pub proof fn lemma_tagged_chapter_effect(cfg: &Config, chapters: Seq<Chapter>, ch: Chapter, t: Seq<char>)
    requires
        ch.path is Some,
        cfg.tag_block(ch.content@) is Some,
    ensures
        cfg.indexes(chapters.push(ch)).1 == cfg.indexes(chapters).1.insert(
            ch.path->0@,
            cfg.listed_tags(ch.content@),
        ),
        !cfg.listed_tags(ch.content@).contains(t) ==> posts_of(cfg.indexes(chapters.push(ch)).0, t)
            == posts_of(cfg.indexes(chapters).0, t),
{
    assert(chapters.push(ch).drop_last() =~= chapters);
    assert(chapters.push(ch).last() == ch);
    if !cfg.listed_tags(ch.content@).contains(t) {
        lemma_add_post_others(
            cfg.indexes(chapters).0,
            cfg.listed_tags(ch.content@),
            (ch.name@, ch.path->0@),
            t,
        );
    }
}

/// A chapter without a path or without a tag list changes neither index.
pub proof fn lemma_untagged_adds_nothing(cfg: &Config, chapters: Seq<Chapter>, ch: Chapter)
    requires
        ch.path is None || cfg.tag_block(ch.content@) is None,
    ensures
        cfg.indexes(chapters.push(ch)) == cfg.indexes(chapters),
{
    assert(chapters.push(ch).drop_last() =~= chapters);
    assert(chapters.push(ch).last() == ch);
}

/// The indexes never lose a key: adding a chapter keeps every tag and
/// every post path already indexed.
pub proof fn lemma_indexes_keep_keys(cfg: &Config, chapters: Seq<Chapter>, ch: Chapter)
    ensures
        forall|t: Seq<char>|
            cfg.indexes(chapters).0.contains_key(t) ==> #[trigger] cfg.indexes(
                chapters.push(ch),
            ).0.contains_key(t),
        forall|p: Seq<char>|
            cfg.indexes(chapters).1.contains_key(p) ==> #[trigger] cfg.indexes(
                chapters.push(ch),
            ).1.contains_key(p),
{
    assert(chapters.push(ch).drop_last() =~= chapters);
    assert(chapters.push(ch).last() == ch);
    match (ch.path, cfg.tag_block(ch.content@)) {
        (Some(path), Some((_, _, tags))) => {
            lemma_add_post_keys(cfg.indexes(chapters).0, tags, (ch.name@, path@));
        },
        _ => {},
    }
}

/// The indexes are complete: every chapter with a path and a tag list has
/// its path in the post index, with that list's tags, and each of those
/// tags is in the tag index.
pub proof fn lemma_indexes_complete(cfg: &Config, chapters: Seq<Chapter>, i: int)
    requires
        cfg.tagged_at(chapters, i),
    ensures
        cfg.indexes(chapters).1.contains_key(chapters[i].path->0@),
        forall|k: int|
            0 <= k < cfg.listed_tags(chapters[i].content@).len() ==> cfg.indexes(
                chapters,
            ).0.contains_key(#[trigger] cfg.listed_tags(chapters[i].content@)[k]),
    decreases chapters.len(),
{
    let before = chapters.drop_last();
    let last = chapters.last();
    assert(before.push(last) =~= chapters);
    if i == chapters.len() - 1 {
        assert(last == chapters[i]);
        match (last.path, cfg.tag_block(last.content@)) {
            (Some(path), Some((_, _, tags))) => {
                lemma_add_post_keys(cfg.indexes(before).0, tags, (last.name@, path@));
            },
            _ => {},
        }
    } else {
        assert(before[i] == chapters[i]);
        assert(cfg.tagged_at(before, i));
        lemma_indexes_complete(cfg, before, i);
        lemma_indexes_keep_keys(cfg, before, last);
    }
}

/// Settings are taken as given: each string setting gives its value, each
/// absent one its default, and one of another kind an error.
pub proof fn lemma_tagger_settings_taken(c: Seq<Setting>)
    ensures
        (text_setting(c, "marker"@) is Some && text_setting(c, "marker"@)->0 is Err)
            ==> config_outcome(Some(c)) is Err,
        (text_setting(c, "tag2posts_path"@) is Some && text_setting(c, "tag2posts_path"@)->0 is Err)
            ==> config_outcome(Some(c)) is Err,
        (text_setting(c, "post2tags_path"@) is Some && text_setting(c, "post2tags_path"@)->0 is Err)
            ==> config_outcome(Some(c)) is Err,
        (text_setting(c, "split"@) is Some && text_setting(c, "split"@)->0 is Err)
            ==> config_outcome(Some(c)) is Err,
        config_outcome(Some(c)) matches Ok(v) ==> {
            &&& (text_setting(c, "marker"@) matches Some(Ok(t)) ==> v.0 == t)
            &&& (text_setting(c, "marker"@) is None ==> v.0 == "tags"@)
            &&& (text_setting(c, "tag2posts_path"@) matches Some(Ok(t)) ==> v.1 == t)
            &&& (text_setting(c, "tag2posts_path"@) is None ==> v.1 == "tag2posts.json"@)
            &&& (text_setting(c, "post2tags_path"@) matches Some(Ok(t)) ==> v.2 == t)
            &&& (text_setting(c, "post2tags_path"@) is None ==> v.2 == "post2tags.json"@)
            &&& (text_setting(c, "split"@) matches Some(Ok(t)) ==> v.3 == t)
            &&& (text_setting(c, "split"@) is None ==> v.3 == ";"@)
        },
{
}

/// The tagger preprocessor.
pub struct Tagger;

impl Tagger {
    /// The tagger.
    pub fn new() -> (r: Tagger)
        ensures
            r == Tagger,
    {
        Tagger
    }

    /// The name under which the book's settings configure it.
    pub fn name(&self) -> (r: &'static str)
        ensures
            r@ == "tagger"@,
    {
        "tagger"
    }
}

} // verus!
