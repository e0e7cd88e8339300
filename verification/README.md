# mdbook_preprocessors

The verified core of three mdBook preprocessors:

- the **collector** reads a data block `<!-- collect ... -->` (JSON, YAML or
  TOML) from each chapter, removes it, and gathers the parsed objects into
  one JSON object keyed by post name, each with the post's path under
  `path_key` (and its title, when `add_title` is set);
- the **tagger** reads a tag list `<!-- tags: a; b -->` from each chapter,
  removes it, and builds the posts of each tag and the tags of each post;
- the **table-of-contents installer** writes its script and style sheet and
  adds the lines that load them to the theme's `head.hbs`.

`src/` is the library, verified with Verus: settings (`settings.rs`),
character-level text work (`text.rs`), UTF-8 byte spans (`span.rs`), the
marked-comment regex (`marker.rs`), JSON objects (`json.rs`), the tag
indexes (`index.rs`), chapters (`book.rs`), and one module per
preprocessor. `app/` holds the `mdbook::preprocess::Preprocessor`
implementations, which read the book and its settings and write the files.
