//! The tag indexes, kept in `hashbrown` hash maps: the posts of each tag,
//! and the tags of each post.

use hashbrown::HashMap;
use vstd::prelude::*;

use crate::json::{enumerates, json_array, json_object_text, json_string, json_string_array};

verus! {

/// A post as a tag lists it: its title and its path.
pub type PostRef = (Seq<char>, Seq<char>);

/// Each tag with its posts, in order.
pub type TagMap = Map<Seq<char>, Seq<PostRef>>;

/// Each post path with its tags, in order.
pub type PostMap = Map<Seq<char>, Seq<Seq<char>>>;

/// The plain form of a list of posts.
pub open spec fn posts_view(posts: Seq<(String, String)>) -> Seq<PostRef> {
    posts.map_values(|p: (String, String)| (p.0@, p.1@))
}

/// The JSON text of a list of posts: an array of `[title, path]` pairs.
pub open spec fn posts_json(posts: Seq<PostRef>) -> Seq<char> {
    json_array(posts.map_values(|p: PostRef| json_array(seq![json_string(p.0), json_string(p.1)])))
}

/// The JSON text of the tag index `m`, its tags in the order `keys`: an
/// object from each tag to its posts.
pub open spec fn tag_map_json(m: TagMap, keys: Seq<Seq<char>>) -> Seq<char> {
    json_object_text(keys.map_values(|k: Seq<char>| (k, posts_json(m[k]))))
}

/// The JSON text of the post index `m`, its paths in the order `keys`: an
/// object from each path to the array of its tags.
pub open spec fn post_map_json(m: PostMap, keys: Seq<Seq<char>>) -> Seq<char> {
    json_object_text(keys.map_values(|k: Seq<char>| (k, json_string_array(m[k]))))
}

/// Whether `text` is the JSON text of the tag index `m`, its tags in some
/// order.
pub open spec fn is_tag_map_json(m: TagMap, text: Seq<char>) -> bool {
    exists|keys: Seq<Seq<char>>| enumerates(keys, m.dom()) && text == tag_map_json(m, keys)
}

/// Whether `text` is the JSON text of the post index `m`, its paths in some
/// order.
pub open spec fn is_post_map_json(m: PostMap, text: Seq<char>) -> bool {
    exists|keys: Seq<Seq<char>>| enumerates(keys, m.dom()) && text == post_map_json(m, keys)
}

/// For each tag, the posts that carry it.
#[verifier::external_body]
pub struct TagIndex {
    map: HashMap<String, Vec<(String, String)>>,
}

/// For each post path, its tags.
#[verifier::external_body]
pub struct PostIndex {
    map: HashMap<String, Vec<String>>,
}

/// What a `TagIndex` holds: each tag with its posts, in order.
pub uninterp spec fn tag_index_map(index: TagIndex) -> TagMap;

/// What a `PostIndex` holds: each post path with its tags, in order.
pub uninterp spec fn post_index_map(index: PostIndex) -> PostMap;

impl TagIndex {
    /// An empty index, from `hashbrown::HashMap::new`.
    #[verifier::external_body]
    pub(crate) fn new() -> (r: TagIndex)
        ensures
            tag_index_map(r) == TagMap::empty(),
    {
        TagIndex { map: HashMap::new() }
    }

    /// A copy of the posts of `tag`, from `hashbrown::HashMap::get`.
    #[verifier::external_body]
    pub(crate) fn get(&self, tag: &String) -> (r: Option<Vec<(String, String)>>)
        ensures
            r is Some <==> tag_index_map(*self).contains_key(tag@),
            r matches Some(v) ==> posts_view(v@) == tag_index_map(*self)[tag@],
    {
        self.map.get(tag).cloned()
    }

    /// Sets the posts of `tag`, with `hashbrown::HashMap::insert`.
    #[verifier::external_body]
    pub(crate) fn insert(&mut self, tag: String, posts: Vec<(String, String)>)
        ensures
            tag_index_map(*final(self)) == tag_index_map(*old(self)).insert(tag@, posts_view(posts@)),
    {
        self.map.insert(tag, posts);
    }

    /// The number of tags, from `hashbrown::HashMap::len`.
    #[verifier::external_body]
    pub(crate) fn len(&self) -> (r: usize)
        ensures
            r == tag_index_map(*self).len(),
    {
        self.map.len()
    }

    /// The index as JSON text, from `serde_json::to_string`: compact, an
    /// object from each tag to the array of its `[title, path]` pairs, the
    /// tags in the hash map's iteration order, which varies from process to
    /// process and is left open. Writing cannot fail: the keys are strings.
    #[verifier::external_body]
    pub(crate) fn to_json(&self) -> (r: String)
        ensures
            is_tag_map_json(tag_index_map(*self), r@),
    {
        serde_json::to_string(&self.map).unwrap()
    }
}

impl PostIndex {
    /// An empty index, from `hashbrown::HashMap::new`.
    #[verifier::external_body]
    pub(crate) fn new() -> (r: PostIndex)
        ensures
            post_index_map(r) == PostMap::empty(),
    {
        PostIndex { map: HashMap::new() }
    }

    /// Sets the tags of the post at `path`, with `hashbrown::HashMap::insert`.
    #[verifier::external_body]
    pub(crate) fn insert(&mut self, path: String, tags: Vec<String>)
        ensures
            post_index_map(*final(self)) == post_index_map(*old(self)).insert(
                path@,
                tags.deep_view(),
            ),
    {
        self.map.insert(path, tags);
    }

    /// The number of posts, from `hashbrown::HashMap::len`.
    #[verifier::external_body]
    pub(crate) fn len(&self) -> (r: usize)
        ensures
            r == post_index_map(*self).len(),
    {
        self.map.len()
    }

    /// The index as JSON text, from `serde_json::to_string`: compact, an
    /// object from each path to the array of its tags, the paths in the hash
    /// map's iteration order, which varies from process to process and is
    /// left open. Writing cannot fail: the keys are strings.
    #[verifier::external_body]
    pub(crate) fn to_json(&self) -> (r: String)
        ensures
            is_post_map_json(post_index_map(*self), r@),
    {
        serde_json::to_string(&self.map).unwrap()
    }
}

} // verus!
