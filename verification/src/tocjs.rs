//! The table-of-contents installer: its settings, the script that starts
//! the table of contents, and the lines it adds to the theme's `head.hbs`.

use vstd::prelude::*;

use crate::settings::{
    get_value_to_str, table_of, text_or, text_setting, ConfigError, ConfigFault, Setting, Settings,
};
use crate::text::{chars_of, contains_exec, contains_text, occurs_at};

verus! {

/// Settings of the table-of-contents installer.
pub struct Config {
    /// Where the script and style sheet are saved, relative to the book's
    /// source directory.
    pub save_dir: String,
    /// The id of the element that receives the block table of contents.
    pub block_marker_id: String,
    /// The id of the element that receives the side (wing) table of contents.
    pub wing_marker_id: String,
    /// The theme directory, relative to the book's root.
    pub theme_dir: String,
    /// The URL prefix under which the book is served.
    pub base_url: String,
}

/// The settings as plain values: save directory, block id, wing id, theme
/// directory, base URL.
pub type Setup = (Seq<char>, Seq<char>, Seq<char>, Seq<char>, Seq<char>);

/// The settings that the table `cfg` gives, or the first fault in it: the
/// defaults when there is no table; else `save_dir`, `block_marker_id`,
/// `wing_marker_id`, `theme_dir` and `base_url` must be strings, checked in
/// that order.
pub open spec fn config_outcome(cfg: Option<Seq<Setting>>) -> Result<Setup, ConfigFault> {
    match cfg {
        None => Ok(("lib"@, "tock"@, "tocw"@, "theme"@, "/"@)),
        Some(c) => {
            let sd = text_setting(c, "save_dir"@);
            let bm = text_setting(c, "block_marker_id"@);
            let wm = text_setting(c, "wing_marker_id"@);
            let td = text_setting(c, "theme_dir"@);
            let bu = text_setting(c, "base_url"@);
            match (sd, bm, wm, td, bu) {
                (Some(Err(f)), _, _, _, _) => Err(f),
                (_, Some(Err(f)), _, _, _) => Err(f),
                (_, _, Some(Err(f)), _, _) => Err(f),
                (_, _, _, Some(Err(f)), _) => Err(f),
                (_, _, _, _, Some(Err(f))) => Err(f),
                _ => Ok(
                    (
                        text_or(sd, "lib"@),
                        text_or(bm, "tock"@),
                        text_or(wm, "tocw"@),
                        text_or(td, "theme"@),
                        text_or(bu, "/"@),
                    ),
                ),
            }
        },
    }
}

/// The script: `literal` (the table-of-contents code), then a handler that
/// builds the block and the wing tables of contents once the page loads.
pub open spec fn toc_script(literal: Seq<char>, block: Seq<char>, wing: Seq<char>) -> Seq<char> {
    "\n      "@ + literal
        + "\n      window.addEventListener(\"load\", (e)=>{\n        const toc_maker = new TocMaker();\n        "@
        + block_call(block) + "\n        "@ + wing_call(wing) + "\n      });\n      "@
}

/// The call that builds the block table of contents on the element `block`.
pub open spec fn block_call(block: Seq<char>) -> Seq<char> {
    "toc_maker.build_block(\""@ + block + "\");"@
}

/// The call that builds the wing table of contents on the element `wing`.
pub open spec fn wing_call(wing: Seq<char>) -> Seq<char> {
    "toc_maker.build_wing(\""@ + wing + "\");"@
}

/// The two lines that `head.hbs` needs: the style sheet and the script,
/// under `base_url`.
pub open spec fn head_lines(base_url: Seq<char>) -> Seq<Seq<char>> {
    seq![
        "<link rel=\"stylesheet\" href=\""@ + base_url + "lib/toc.css\">"@,
        "<script src=\""@ + base_url + "lib/toc.js\"></script>"@,
    ]
}

/// `line`, unless `existing` already contains it.
pub open spec fn missing_line(existing: Seq<char>, line: Seq<char>) -> Seq<char> {
    if contains_text(existing, line) {
        Seq::empty()
    } else {
        line
    }
}

/// What is written to `head.hbs`: when it exists with the text `existing`,
/// the lines it does not contain yet, in order, to append; when it does not
/// exist, both lines.
pub open spec fn head_addition(existing: Option<Seq<char>>, base_url: Seq<char>) -> Seq<char> {
    let lines = head_lines(base_url);
    match existing {
        Some(buf) => missing_line(buf, lines[0]) + missing_line(buf, lines[1]),
        None => lines[0] + lines[1],
    }
}

impl Config {
    /// These settings as plain values.
    pub open spec fn setup(&self) -> Setup {
        (
            self.save_dir@,
            self.block_marker_id@,
            self.wing_marker_id@,
            self.theme_dir@,
            self.base_url@,
        )
    }

    /// The settings that `settings` (the preprocessor's table, if the book
    /// has one) give, or the first fault in them.
    pub fn new(settings: Option<&Settings>) -> (res: Result<Config, ConfigError>)
        ensures
            match (res, config_outcome(table_of(settings))) {
                (Ok(c), Ok(v)) => c.setup() == v,
                (Err(e), Err(f)) => e@ == f,
                _ => false,
            },
    {
        let mut config = Config {
            save_dir: "lib".to_owned(),
            block_marker_id: "tock".to_owned(),
            wing_marker_id: "tocw".to_owned(),
            theme_dir: "theme".to_owned(),
            base_url: "/".to_owned(),
        };
        let cfg = match settings {
            None => return Ok(config),
            Some(c) => c,
        };
        match get_value_to_str(cfg, "save_dir") {
            Some(Ok(x)) => config.save_dir = x,
            Some(Err(e)) => return Err(e),
            None => {},
        }
        match get_value_to_str(cfg, "block_marker_id") {
            Some(Ok(x)) => config.block_marker_id = x,
            Some(Err(e)) => return Err(e),
            None => {},
        }
        match get_value_to_str(cfg, "wing_marker_id") {
            Some(Ok(x)) => config.wing_marker_id = x,
            Some(Err(e)) => return Err(e),
            None => {},
        }
        match get_value_to_str(cfg, "theme_dir") {
            Some(Ok(x)) => config.theme_dir = x,
            Some(Err(e)) => return Err(e),
            None => {},
        }
        match get_value_to_str(cfg, "base_url") {
            Some(Ok(x)) => config.base_url = x,
            Some(Err(e)) => return Err(e),
            None => {},
        }
        Ok(config)
    }

    /// The script that saves as `toc.js`: `literal`, then the start-up
    /// handler with this book's element ids.
    pub fn format_js(&self, literal: &str) -> (r: String)
        ensures
            r@ == toc_script(literal@, self.block_marker_id@, self.wing_marker_id@),
    {
        let mut r: String = "\n      ".to_owned();
        r.append(literal);
        r.append(
            "\n      window.addEventListener(\"load\", (e)=>{\n        const toc_maker = new TocMaker();\n        ",
        );
        r.append("toc_maker.build_block(\"");
        r.append(self.block_marker_id.as_str());
        r.append("\");");
        r.append("\n        ");
        r.append("toc_maker.build_wing(\"");
        r.append(self.wing_marker_id.as_str());
        r.append("\");");
        r.append("\n      });\n      ");
        r
    }

    /// The two lines that `head.hbs` needs.
    pub fn head_lines(&self) -> (r: Vec<String>)
        ensures
            r.deep_view() == head_lines(self.base_url@),
            r.len() == 2,
            r@[0]@ == head_lines(self.base_url@)[0],
            r@[1]@ == head_lines(self.base_url@)[1],
    {
        let mut css: String = "<link rel=\"stylesheet\" href=\"".to_owned();
        css.append(self.base_url.as_str());
        css.append("lib/toc.css\">");
        let mut js: String = "<script src=\"".to_owned();
        js.append(self.base_url.as_str());
        js.append("lib/toc.js\"></script>");
        let mut r: Vec<String> = Vec::new();
        r.push(css);
        r.push(js);
        assert(r.deep_view() =~= head_lines(self.base_url@));
        r
    }

    /// What to write to `head.hbs`, given its text when it exists: the
    /// lines it lacks, to append, or both lines for a new file.
    pub fn head_hbs_addition(&self, existing: Option<&str>) -> (r: String)
        ensures
            r@ == head_addition(
                match existing {
                    Some(b) => Some(b@),
                    None => None,
                },
                self.base_url@,
            ),
    {
        let lines = self.head_lines();
        let mut r: String = String::new();
        match existing {
            Some(buf) => {
                let hay = chars_of(buf);
                let first = chars_of(lines[0].as_str());
                if !contains_exec(&hay, &first) {
                    r.append(lines[0].as_str());
                }
                let second = chars_of(lines[1].as_str());
                if !contains_exec(&hay, &second) {
                    r.append(lines[1].as_str());
                }
            },
            None => {
                r.append(lines[0].as_str());
                r.append(lines[1].as_str());
            },
        }
        r
    }
}

/// Text that contains `needle` still contains it with more text around it.
proof fn lemma_contains_within(pre: Seq<char>, mid: Seq<char>, post: Seq<char>, needle: Seq<char>)
    requires
        contains_text(mid, needle),
    ensures
        contains_text(pre + mid + post, needle),
{
    let i = choose|i: int| occurs_at(mid, needle, i);
    let whole = pre + mid + post;
    assert(whole.subrange(pre.len() + i, pre.len() + i + needle.len()) =~= mid.subrange(
        i,
        i + needle.len(),
    ));
    assert(occurs_at(whole, needle, pre.len() + i));
}

/// A text contains itself.
proof fn lemma_contains_self(t: Seq<char>)
    ensures
        contains_text(t, t),
{
    assert(t.subrange(0, t.len() as int) =~= t);
    assert(occurs_at(t, t, 0));
}

/// Settings are taken as given: each string setting gives its value, each
/// absent one its default, and one of another kind an error.
pub proof fn lemma_tocjs_settings_taken(c: Seq<Setting>)
    ensures
        (text_setting(c, "save_dir"@) is Some && text_setting(c, "save_dir"@)->0 is Err)
            ==> config_outcome(Some(c)) is Err,
        (text_setting(c, "block_marker_id"@) is Some && text_setting(c, "block_marker_id"@)->0 is Err)
            ==> config_outcome(Some(c)) is Err,
        (text_setting(c, "wing_marker_id"@) is Some && text_setting(c, "wing_marker_id"@)->0 is Err)
            ==> config_outcome(Some(c)) is Err,
        (text_setting(c, "theme_dir"@) is Some && text_setting(c, "theme_dir"@)->0 is Err)
            ==> config_outcome(Some(c)) is Err,
        (text_setting(c, "base_url"@) is Some && text_setting(c, "base_url"@)->0 is Err)
            ==> config_outcome(Some(c)) is Err,
        config_outcome(Some(c)) matches Ok(v) ==> {
            &&& (text_setting(c, "save_dir"@) matches Some(Ok(t)) ==> v.0 == t)
            &&& (text_setting(c, "save_dir"@) is None ==> v.0 == "lib"@)
            &&& (text_setting(c, "block_marker_id"@) matches Some(Ok(t)) ==> v.1 == t)
            &&& (text_setting(c, "block_marker_id"@) is None ==> v.1 == "tock"@)
            &&& (text_setting(c, "wing_marker_id"@) matches Some(Ok(t)) ==> v.2 == t)
            &&& (text_setting(c, "wing_marker_id"@) is None ==> v.2 == "tocw"@)
            &&& (text_setting(c, "theme_dir"@) matches Some(Ok(t)) ==> v.3 == t)
            &&& (text_setting(c, "theme_dir"@) is None ==> v.3 == "theme"@)
            &&& (text_setting(c, "base_url"@) matches Some(Ok(t)) ==> v.4 == t)
            &&& (text_setting(c, "base_url"@) is None ==> v.4 == "/"@)
        },
{
}

/// The text of `head.hbs` after installing: the existing text (empty for
/// a new file) followed by what is written to it.
pub open spec fn installed(existing: Option<Seq<char>>, base_url: Seq<char>) -> Seq<char> {
    let buf = match existing {
        Some(b) => b,
        None => Seq::<char>::empty(),
    };
    buf + head_addition(existing, base_url)
}

/// After installing, `head.hbs` contains both lines, whatever it held.
pub proof fn lemma_head_installed(existing: Option<Seq<char>>, base_url: Seq<char>)
    ensures
        contains_text(installed(existing, base_url), head_lines(base_url)[0]),
        contains_text(installed(existing, base_url), head_lines(base_url)[1]),
{
    let lines = head_lines(base_url);
    let buf = match existing {
        Some(b) => b,
        None => Seq::<char>::empty(),
    };
    let (m0, m1) = match existing {
        Some(b) => (missing_line(b, lines[0]), missing_line(b, lines[1])),
        None => (lines[0], lines[1]),
    };
    let after = installed(existing, base_url);
    assert(after =~= buf + m0 + m1);
    // the first line
    if contains_text(buf, lines[0]) {
        lemma_contains_within(Seq::empty(), buf, m0 + m1, lines[0]);
        assert(Seq::<char>::empty() + buf + (m0 + m1) =~= after);
    } else {
        assert(m0 == lines[0]);
        lemma_contains_self(lines[0]);
        lemma_contains_within(buf, lines[0], m1, lines[0]);
    }
    // the second line
    if contains_text(buf, lines[1]) {
        lemma_contains_within(Seq::empty(), buf, m0 + m1, lines[1]);
        assert(Seq::<char>::empty() + buf + (m0 + m1) =~= after);
    } else {
        assert(m1 == lines[1]);
        lemma_contains_self(lines[1]);
        lemma_contains_within(buf + m0, lines[1], Seq::empty(), lines[1]);
        assert(buf + m0 + lines[1] + Seq::<char>::empty() =~= after);
    }
}

/// Only missing lines are added, each on its own account: nothing when
/// the file has both, the other line when it has one, and both, style
/// sheet first, when it has neither.
pub proof fn lemma_head_adds_only_missing(buf: Seq<char>, base_url: Seq<char>)
    ensures
        ({
            let l0 = head_lines(base_url)[0];
            let l1 = head_lines(base_url)[1];
            let add = head_addition(Some(buf), base_url);
            &&& (contains_text(buf, l0) && contains_text(buf, l1)) ==> add == Seq::<char>::empty()
            &&& (contains_text(buf, l0) && !contains_text(buf, l1)) ==> add == l1
            &&& (!contains_text(buf, l0) && contains_text(buf, l1)) ==> add == l0
            &&& (!contains_text(buf, l0) && !contains_text(buf, l1)) ==> add == l0 + l1
        }),
{
    let l0 = head_lines(base_url)[0];
    let l1 = head_lines(base_url)[1];
    assert(Seq::<char>::empty() + Seq::<char>::empty() =~= Seq::<char>::empty());
    assert(l0 + Seq::<char>::empty() =~= l0);
    assert(Seq::<char>::empty() + l1 =~= l1);
}

/// Installing the head lines is idempotent: once the addition has been
/// written (appended to the existing file, or as a new file), a second run
/// finds both lines and adds nothing.
pub proof fn lemma_head_addition_idempotent(existing: Option<Seq<char>>, base_url: Seq<char>)
    ensures
        head_addition(Some(installed(existing, base_url)), base_url) == Seq::<char>::empty(),
{
    lemma_head_installed(existing, base_url);
    lemma_head_adds_only_missing(installed(existing, base_url), base_url);
}

/// The script builds the block table of contents on `block` and the wing
/// table of contents on `wing`.
pub proof fn lemma_script_names_ids(literal: Seq<char>, block: Seq<char>, wing: Seq<char>)
    ensures
        contains_text(toc_script(literal, block, wing), block_call(block)),
        contains_text(toc_script(literal, block, wing), wing_call(wing)),
{
    let head = "\n      "@ + literal
        + "\n      window.addEventListener(\"load\", (e)=>{\n        const toc_maker = new TocMaker();\n        "@;
    let mid = "\n        "@;
    let tail = "\n      });\n      "@;
    let script = toc_script(literal, block, wing);
    lemma_contains_self(block_call(block));
    lemma_contains_within(head, block_call(block), mid + wing_call(wing) + tail, block_call(block));
    assert(head + block_call(block) + (mid + wing_call(wing) + tail) =~= script);
    lemma_contains_self(wing_call(wing));
    lemma_contains_within(head + block_call(block) + mid, wing_call(wing), tail, wing_call(wing));
}

/// Text that differs in its middle differs as a whole.
proof fn lemma_middle_differs(pre: Seq<char>, x: Seq<char>, y: Seq<char>, post: Seq<char>)
    requires
        x != y,
    ensures
        pre + x + post != pre + y + post,
{
    if x.len() == y.len() {
        assert((pre + x + post).subrange(pre.len() as int, (pre.len() + x.len()) as int) =~= x);
        assert((pre + y + post).subrange(pre.len() as int, (pre.len() + y.len()) as int) =~= y);
    } else {
        assert((pre + x + post).len() != (pre + y + post).len());
    }
}

/// Different element ids give different scripts: the wing id and the block
/// id each reach the script.
pub proof fn lemma_script_distinguishes_ids(
    literal: Seq<char>,
    block: Seq<char>,
    wing: Seq<char>,
    other: Seq<char>,
)
    requires
        other != wing || other != block,
    ensures
        other != wing ==> toc_script(literal, block, wing) != toc_script(literal, block, other),
        other != block ==> toc_script(literal, block, wing) != toc_script(literal, other, wing),
{
    let head = "\n      "@ + literal
        + "\n      window.addEventListener(\"load\", (e)=>{\n        const toc_maker = new TocMaker();\n        "@;
    let mid = "\n        "@;
    let tail = "\n      });\n      "@;
    let wing_open = "toc_maker.build_wing(\""@;
    let block_open = "toc_maker.build_block(\""@;
    let close = "\");"@;
    if other != wing {
        let pre = head + block_call(block) + mid + wing_open;
        lemma_middle_differs(pre, wing, other, close + tail);
        assert(toc_script(literal, block, wing) =~= pre + wing + (close + tail));
        assert(toc_script(literal, block, other) =~= pre + other + (close + tail));
    }
    if other != block {
        let pre = head + block_open;
        let post = close + mid + wing_call(wing) + tail;
        lemma_middle_differs(pre, block, other, post);
        assert(toc_script(literal, block, wing) =~= pre + block + post);
        assert(toc_script(literal, other, wing) =~= pre + other + post);
    }
}

/// The table-of-contents installer preprocessor.
pub struct TocJsMaker;

impl TocJsMaker {
    /// The installer.
    pub fn new() -> (r: TocJsMaker)
        ensures
            r == TocJsMaker,
    {
        TocJsMaker
    }

    /// The name under which the book's settings configure it.
    pub fn name(&self) -> (r: &'static str)
        ensures
            r@ == "tocjs"@,
    {
        "tocjs"
    }
}

} // verus!
